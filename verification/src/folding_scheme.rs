//! The folding scheme for relaxed PLONK: its keys, the cross term, and the
//! prover and verifier that fold two instances into one.

use ark_std::rand::rngs::StdRng;
use crate::errors::SangriaError;
use crate::field::{copy_elements, values, PrimeField};
use crate::modular::{
    fold_matrix, fold_mod, fold_same_length, fold_vector, lemma_add_step, lemma_congruent_mod,
    lemma_congruent_reduced, lemma_fold_entry, lemma_mul_step, mul_mod, same_shape,
};
use crate::relation::{
    compute_cross_term, cross_term, fold_slack_mod, trace_length, traces_foldable,
};
use crate::relaxed_plonk::{
    circuit_encoding, instance_encoding, instances_compatible, witness_group_values, CircuitView,
    InstanceView, PLONKCircuit, PLONKInstance, PLONKWitness, RelaxedInstanceView,
    RelaxedPLONKInstance, RelaxedPLONKWitness, RelaxedWitnessView, CONSTANT_SELECTOR_INDEX,
};
use crate::transcript::{
    append_bytes, append_count, append_element, append_elements, bytes_encoding, count_mod,
    FieldBasedCryptographicSponge, PoseidonParameters, PoseidonParametersView,
};
use crate::vector_commitment::HomomorphicCommitmentScheme;
use crate::NonInteractiveFoldingScheme;
use std::marker::PhantomData;
use vstd::arithmetic::div_mod::lemma_small_mod;
use vstd::prelude::*;

verus! {

/// The two commitment schemes of one instantiation of the folding scheme:
/// one for the slack vector and the selectors, one for the witness columns.
pub trait FoldingCommitmentConfig<F: PrimeField> {
    /// The scheme that commits to selectors and to the slack vector.
    type CommitmentSlack: HomomorphicCommitmentScheme<F>;

    /// The scheme that commits to witness columns.
    type CommitmentWitness: HomomorphicCommitmentScheme<F>;
}

/// A commitment of the slack scheme, as the program holds it.
pub type SlackCommitment<F, Comm> = <<Comm as FoldingCommitmentConfig<
    F,
>>::CommitmentSlack as HomomorphicCommitmentScheme<F>>::Commitment;

/// A commitment of the witness scheme, as the program holds it.
pub type WitnessCommitment<F, Comm> = <<Comm as FoldingCommitmentConfig<
    F,
>>::CommitmentWitness as HomomorphicCommitmentScheme<F>>::Commitment;

/// A commitment of the slack scheme, as the contracts see it.
pub type SlackGroup<F, Comm> = <<Comm as FoldingCommitmentConfig<
    F,
>>::CommitmentSlack as HomomorphicCommitmentScheme<F>>::Group;

/// A commitment of the witness scheme, as the contracts see it.
pub type WitnessGroup<F, Comm> = <<Comm as FoldingCommitmentConfig<
    F,
>>::CommitmentWitness as HomomorphicCommitmentScheme<F>>::Group;

/// A key of the slack scheme, as the program holds it.
pub type SlackKey<F, Comm> = <<Comm as FoldingCommitmentConfig<
    F,
>>::CommitmentSlack as HomomorphicCommitmentScheme<F>>::CommitKey;

/// A key of the witness scheme, as the program holds it.
pub type WitnessKey<F, Comm> = <<Comm as FoldingCommitmentConfig<
    F,
>>::CommitmentWitness as HomomorphicCommitmentScheme<F>>::CommitKey;

/// A key of the slack scheme, as the contracts see it.
pub type SlackKeyView<F, Comm> = <<Comm as FoldingCommitmentConfig<
    F,
>>::CommitmentSlack as HomomorphicCommitmentScheme<F>>::KeyView;

/// A key of the witness scheme, as the contracts see it.
pub type WitnessKeyView<F, Comm> = <<Comm as FoldingCommitmentConfig<
    F,
>>::CommitmentWitness as HomomorphicCommitmentScheme<F>>::KeyView;

/// The slack vector `e1 + r * t + r^2 * e2` modulo `p`; as long as `e1`.
pub open spec fn fold_slack_vector(e1: Seq<nat>, t: Seq<nat>, e2: Seq<nat>, r: nat, p: nat) -> Seq<
    nat,
> {
    Seq::new(e1.len(), |i: int| fold_slack_mod(e1[i], t[i], e2[i], r, p))
}

/// Whether two relaxed witnesses can be folded with the cross term `t`:
/// their tables have one shape, and the two slack vectors and the cross
/// term one length.
pub open spec fn witnesses_foldable(
    w1: RelaxedWitnessView,
    w2: RelaxedWitnessView,
    t: Seq<nat>,
) -> bool {
    &&& same_shape(w1.plonk_witness, w2.plonk_witness)
    &&& w1.slack_vector.len() == t.len()
    &&& w2.slack_vector.len() == t.len()
}

/// The relaxed witness `w1 + r * w2`, with the cross term `t` entering the
/// slack at the first power of `r`.
pub open spec fn fold_witness_views(
    w1: RelaxedWitnessView,
    w2: RelaxedWitnessView,
    t: Seq<nat>,
    r: nat,
    p: nat,
) -> RelaxedWitnessView {
    RelaxedWitnessView {
        plonk_witness: fold_matrix(w1.plonk_witness, w2.plonk_witness, r, p),
        slack_vector: fold_slack_vector(w1.slack_vector, t, w2.slack_vector, r, p),
        commitment_hidings: fold_vector(w1.commitment_hidings, w2.commitment_hidings, r, p),
    }
}

/// The relaxed instance `x1 + r * x2`, with the commitment `t` to the cross
/// term entering the slack commitment at the first power of `r`.
pub open spec fn fold_instance_views<F: PrimeField, Comm: FoldingCommitmentConfig<F>>(
    x1: InstanceView<F, Comm>,
    x2: InstanceView<F, Comm>,
    t: SlackGroup<F, Comm>,
    r: nat,
) -> InstanceView<F, Comm> {
    RelaxedInstanceView {
        plonk_instance: fold_matrix(x1.plonk_instance, x2.plonk_instance, r, F::modulus()),
        scaling_factor: fold_mod(x1.scaling_factor, x2.scaling_factor, r, F::modulus()),
        slack_commitment: Comm::CommitmentSlack::add_spec(
            Comm::CommitmentSlack::add_spec(
                x1.slack_commitment,
                Comm::CommitmentSlack::scale_spec(t, r),
            ),
            Comm::CommitmentSlack::scale_spec(x2.slack_commitment, mul_mod(r, r, F::modulus())),
        ),
        witness_commitments: Seq::new(
            x1.witness_commitments.len(),
            |i: int|
                Comm::CommitmentWitness::add_spec(
                    x1.witness_commitments[i],
                    Comm::CommitmentWitness::scale_spec(x2.witness_commitments[i], r),
                ),
        ),
    }
}

/// The slack vector `e1 + r * t + r^2 * e2`, for three vectors of one
/// length.
fn fold_slack_same_length<F: PrimeField>(e1: &Vec<F>, t: &Vec<F>, e2: &Vec<F>, r: &F) -> (folded:
    Vec<F>)
    requires
        e1.len() == t.len(),
        e2.len() == t.len(),
    ensures
        values(folded@) == fold_slack_vector(
            values(e1@),
            values(t@),
            values(e2@),
            r.value(),
            F::modulus(),
        ),
        folded.len() == e1.len(),
{
    let r_squared = r.mul(r);
    let mut out: Vec<F> = Vec::new();
    let mut i: usize = 0;
    while i < e1.len()
        invariant
            i <= e1.len(),
            e1.len() == t.len(),
            e2.len() == t.len(),
            out.len() == i,
            r_squared.value() == (r.value() * r.value()) % F::modulus(),
            forall|j: int|
                0 <= j < i ==> (#[trigger] out@[j]).value() == fold_slack_mod(
                    e1@[j].value(),
                    t@[j].value(),
                    e2@[j].value(),
                    r.value(),
                    F::modulus(),
                ),
        decreases e1.len() - i,
    {
        let rt = r.mul(&t[i]);
        let rre = r_squared.mul(&e2[i]);
        let first = e1[i].add(&rt);
        let folded = first.add(&rre);
        proof {
            let p = F::modulus();
            let (a, b, c) = (e1@[i as int].value(), t@[i as int].value(), e2@[i as int].value());
            let x = r.value();
            folded.lemma_canonical();
            lemma_mul_step(rt.value(), x, b, x, b, p);
            lemma_congruent_mod(x * x, p);
            lemma_mul_step(rre.value(), r_squared.value(), c, x * x, c, p);
            lemma_add_step(first.value(), a, rt.value(), a, x * b, p);
            lemma_add_step(folded.value(), first.value(), rre.value(), a + x * b, x * x * c, p);
            lemma_congruent_reduced(folded.value(), a + x * b + x * x * c, p);
        }
        out.push(folded);
        i += 1;
    }
    assert(values(out@) =~= fold_slack_vector(
        values(e1@),
        values(t@),
        values(e2@),
        r.value(),
        F::modulus(),
    ));
    out
}

/// The slack vector `e1 + r * t + r^2 * e2`, or `IndexOutOfBounds` where
/// the three vectors do not have one length.
pub fn fold_slack_elements<F: PrimeField>(e1: &Vec<F>, t: &Vec<F>, e2: &Vec<F>, r: &F) -> (res:
    Result<Vec<F>, SangriaError>)
    ensures
        e1.len() == t.len() && e2.len() == t.len() ==> res is Ok && values(res->Ok_0@)
            == fold_slack_vector(values(e1@), values(t@), values(e2@), r.value(), F::modulus()),
        !(e1.len() == t.len() && e2.len() == t.len()) ==> res == Err::<Vec<F>, SangriaError>(
            SangriaError::IndexOutOfBounds,
        ),
{
    if e1.len() != t.len() || e2.len() != t.len() {
        return Err(SangriaError::IndexOutOfBounds);
    }
    Ok(fold_slack_same_length(e1, t, e2, r))
}

/// Folds two relaxed witnesses under the challenge: tables and blinding
/// factors as `left + challenge * right`, the slack as
/// `left + challenge * cross_term + challenge^2 * right`. It fails with
/// `IndexOutOfBounds` exactly when the shapes do not fit.
pub fn fold_witnesses<F: PrimeField>(
    left: &RelaxedPLONKWitness<F>,
    right: &RelaxedPLONKWitness<F>,
    cross_term: &Vec<F>,
    challenge: &F,
) -> (res: Result<RelaxedPLONKWitness<F>, SangriaError>)
    ensures
        witnesses_foldable(left@, right@, values(cross_term@)) ==> res is Ok && res->Ok_0@
            == fold_witness_views(
            left@,
            right@,
            values(cross_term@),
            challenge.value(),
            F::modulus(),
        ),
        !witnesses_foldable(left@, right@, values(cross_term@)) ==> res == Err::<
            RelaxedPLONKWitness<F>,
            SangriaError,
        >(SangriaError::IndexOutOfBounds),
{
    let left_slack = left.slack_vector();
    let right_slack = right.slack_vector();
    proof {
        assert(values(left_slack@).len() == left_slack.len());
        assert(values(right_slack@).len() == right_slack.len());
        assert(values(cross_term@).len() == cross_term.len());
    }
    if left_slack.len() != cross_term.len() || right_slack.len() != cross_term.len() {
        return Err(SangriaError::IndexOutOfBounds);
    }
    let table = match left.plonk_witness().fold(right.plonk_witness(), challenge) {
        Ok(table) => table,
        Err(e) => {
            return Err(e);
        },
    };
    let left_hidings = left.hiding_randomnesses();
    let right_hidings = right.hiding_randomnesses();
    let hidings = fold_same_length(&left_hidings, &right_hidings, challenge);
    let slack = fold_slack_same_length(&left_slack, cross_term, &right_slack, challenge);
    RelaxedPLONKWitness::new(table, slack, hidings)
}

/// Folds two relaxed instances under the challenge, with the commitment to
/// the cross term as the prover's message: public rows, scaling factor and
/// witness commitments as `left + challenge * right`, the slack commitment
/// as `left + challenge * prover_message + challenge^2 * right`. It fails
/// with `IndexOutOfBounds` exactly when the shapes do not fit.
pub fn fold_instances<F: PrimeField, Comm: FoldingCommitmentConfig<F>>(
    left: &RelaxedPLONKInstance<F, Comm>,
    right: &RelaxedPLONKInstance<F, Comm>,
    prover_message: &SlackCommitment<F, Comm>,
    challenge: &F,
) -> (res: Result<RelaxedPLONKInstance<F, Comm>, SangriaError>)
    ensures
        instances_compatible(left@, right@) ==> res is Ok && res->Ok_0@ == fold_instance_views::<
            F,
            Comm,
        >(
            left@,
            right@,
            Comm::CommitmentSlack::group_value(prover_message),
            challenge.value(),
        ),
        !instances_compatible(left@, right@) ==> res == Err::<
            RelaxedPLONKInstance<F, Comm>,
            SangriaError,
        >(SangriaError::IndexOutOfBounds),
{
    let left_commitments = left.witness_commitments();
    let right_commitments = right.witness_commitments();
    proof {
        assert(witness_group_values::<F, Comm>(left_commitments@).len()
            == left_commitments.len());
        assert(witness_group_values::<F, Comm>(right_commitments@).len()
            == right_commitments.len());
    }
    if left_commitments.len() != right_commitments.len() {
        return Err(SangriaError::IndexOutOfBounds);
    }
    let table = match left.plonk_instance().fold(right.plonk_instance(), challenge) {
        Ok(table) => table,
        Err(e) => {
            return Err(e);
        },
    };
    let scaling = left.scaling_factor().add(&challenge.mul(&right.scaling_factor()));
    proof {
        challenge.lemma_canonical();
        lemma_fold_entry(
            left@.scaling_factor,
            right@.scaling_factor,
            challenge.value(),
            F::modulus(),
        );
    }
    let challenge_squared = challenge.mul(challenge);
    let slack = Comm::CommitmentSlack::add_commitments(
        &Comm::CommitmentSlack::add_commitments(
            &left.slack_commitment(),
            &Comm::CommitmentSlack::scale_commitment(prover_message, challenge),
        ),
        &Comm::CommitmentSlack::scale_commitment(&right.slack_commitment(), &challenge_squared),
    );
    let mut commitments: Vec<WitnessCommitment<F, Comm>> = Vec::new();
    let mut i: usize = 0;
    while i < left_commitments.len()
        invariant
            i <= left_commitments.len(),
            left_commitments.len() == right_commitments.len(),
            commitments.len() == i,
            forall|j: int|
                0 <= j < i ==> Comm::CommitmentWitness::group_value(#[trigger] &commitments@[j])
                    == Comm::CommitmentWitness::add_spec(
                    Comm::CommitmentWitness::group_value(&left_commitments@[j]),
                    Comm::CommitmentWitness::scale_spec(
                        Comm::CommitmentWitness::group_value(&right_commitments@[j]),
                        challenge.value(),
                    ),
                ),
        decreases left_commitments.len() - i,
    {
        let scaled = Comm::CommitmentWitness::scale_commitment(&right_commitments[i], challenge);
        commitments.push(Comm::CommitmentWitness::add_commitments(&left_commitments[i], &scaled));
        i += 1;
    }
    let folded = RelaxedPLONKInstance::new(table, scaling, slack, commitments);
    proof {
        let expected = fold_instance_views::<F, Comm>(
            left@,
            right@,
            Comm::CommitmentSlack::group_value(prover_message),
            challenge.value(),
        );
        assert forall|j: int| 0 <= j < folded@.witness_commitments.len() implies
            folded@.witness_commitments[j] == expected.witness_commitments[j] by {
            assert(witness_group_values::<F, Comm>(left_commitments@)[j]
                == Comm::CommitmentWitness::group_value(&left_commitments@[j]));
            assert(witness_group_values::<F, Comm>(right_commitments@)[j]
                == Comm::CommitmentWitness::group_value(&right_commitments@[j]));
            assert(witness_group_values::<F, Comm>(commitments@)[j]
                == Comm::CommitmentWitness::group_value(&commitments@[j]));
        }
        assert(folded@.witness_commitments =~= expected.witness_commitments);
    }
    Ok(folded)
}

/// A folding scheme for relaxed PLONK over the field `F`, with the
/// commitment schemes of `Comm` and challenges from the sponge `RO`.
pub struct PLONKFoldingScheme<
    F: PrimeField,
    Comm: FoldingCommitmentConfig<F>,
    RO: FieldBasedCryptographicSponge<F>,
>(pub PhantomData<(F, Comm, RO)>);

/// What `setup` is run with: the sizes of the circuits and the constants of
/// the transcript.
pub struct SetupInfo<F: PrimeField> {
    /// The number of public inputs of a circuit.
    pub number_of_public_inputs: usize,
    /// The number of gates of a circuit.
    pub number_of_gates: usize,
    /// The bytes that separate this protocol's transcripts from any other.
    pub domain_separator: Vec<u8>,
    /// The constants of the transcript's sponge.
    pub poseidon_constants: PoseidonParameters<F>,
}

/// Public parameters of the folding scheme: the sizes of the circuits, a
/// commitment key for vectors of `number_of_gates` entries and one for
/// vectors of `number_of_gates + number_of_public_inputs + 1` entries, and
/// the constants of the transcript.
pub struct PublicParameters<F: PrimeField, Comm: FoldingCommitmentConfig<F>> {
    /// The number of public inputs of a circuit.
    pub number_of_public_inputs: usize,
    /// The number of gates of a circuit.
    pub number_of_gates: usize,
    /// The key for witness columns.
    pub commit_key_witness: WitnessKey<F, Comm>,
    /// The key for selectors and for the slack vector.
    pub commit_key_selectors_and_slack: SlackKey<F, Comm>,
    /// The constants of the transcript's sponge.
    pub poseidon_constants: PoseidonParameters<F>,
    /// The bytes that separate this protocol's transcripts from any other.
    pub domain_separator: Vec<u8>,
}

/// What public parameters hold, as values.
pub struct PublicParametersView<KS, KW> {
    /// The number of public inputs of a circuit.
    pub number_of_public_inputs: nat,
    /// The number of gates of a circuit.
    pub number_of_gates: nat,
    /// The key for witness columns.
    pub commit_key_witness: KW,
    /// The key for selectors and for the slack vector.
    pub commit_key_selectors_and_slack: KS,
    /// The constants of the transcript's sponge.
    pub poseidon_constants: PoseidonParametersView,
    /// The domain separator.
    pub domain_separator: Seq<u8>,
}

/// The view of public parameters over the two schemes of `Comm`.
pub type ParametersView<F, Comm> = PublicParametersView<
    SlackKeyView<F, Comm>,
    WitnessKeyView<F, Comm>,
>;

impl<F: PrimeField, Comm: FoldingCommitmentConfig<F>> View for PublicParameters<F, Comm> {
    type V = ParametersView<F, Comm>;

    open spec fn view(&self) -> Self::V {
        PublicParametersView {
            number_of_public_inputs: self.number_of_public_inputs as nat,
            number_of_gates: self.number_of_gates as nat,
            commit_key_witness: Comm::CommitmentWitness::key_view(&self.commit_key_witness),
            commit_key_selectors_and_slack: Comm::CommitmentSlack::key_view(
                &self.commit_key_selectors_and_slack,
            ),
            poseidon_constants: self.poseidon_constants@,
            domain_separator: self.domain_separator@,
        }
    }
}

impl<F: PrimeField, Comm: FoldingCommitmentConfig<F>> Clone for PublicParameters<F, Comm> {
    fn clone(&self) -> (r: Self)
        ensures
            r@ == self@,
    {
        PublicParameters {
            number_of_public_inputs: self.number_of_public_inputs,
            number_of_gates: self.number_of_gates,
            commit_key_witness: Comm::CommitmentWitness::clone_key(&self.commit_key_witness),
            commit_key_selectors_and_slack: Comm::CommitmentSlack::clone_key(
                &self.commit_key_selectors_and_slack,
            ),
            poseidon_constants: self.poseidon_constants.clone(),
            domain_separator: copy_elements(&self.domain_separator),
        }
    }
}

/// Public parameters as they enter a transcript: the two sizes, then the
/// domain separator.
pub open spec fn parameters_encoding<KS, KW>(pp: PublicParametersView<KS, KW>, p: nat) -> Seq<
    nat,
> {
    seq![count_mod(pp.number_of_public_inputs, p), count_mod(pp.number_of_gates, p)]
        + bytes_encoding(pp.domain_separator, p)
}

impl<F: PrimeField, Comm: FoldingCommitmentConfig<F>> PublicParameters<F, Comm> {
    /// Appends the parameters to a transcript.
    pub fn to_sponge_field_elements(&self, dest: &mut Vec<F>)
        ensures
            values(final(dest)@) == values(old(dest)@) + parameters_encoding(
                self@,
                F::modulus(),
            ),
    {
        append_count(dest, self.number_of_public_inputs);
        append_count(dest, self.number_of_gates);
        append_bytes(dest, &self.domain_separator);
        assert(values(dest@) =~= values(old(dest)@) + parameters_encoding(self@, F::modulus()));
    }
}

/// The verifier key of the folding scheme: the commitment to the constant
/// selector, the seed that binds the key to circuit and parameters, and
/// what the transcript is run with.
pub struct VerifierKey<F: PrimeField, Comm: FoldingCommitmentConfig<F>> {
    /// The commitment to the selector `q_C`.
    pub selector_c_commitment: SlackCommitment<F, Comm>,
    /// The element squeezed from circuit, parameters and blinding at `encode`.
    pub transcript_seed: F,
    /// The constants of the transcript's sponge.
    pub poseidon_constants: PoseidonParameters<F>,
    /// The bytes that separate this protocol's transcripts from any other.
    pub domain_separator: Vec<u8>,
}

/// What a verifier key holds, as values.
pub struct VerifierKeyView<S> {
    /// The commitment to the selector `q_C`.
    pub selector_c_commitment: S,
    /// The transcript seed.
    pub transcript_seed: nat,
    /// The constants of the transcript's sponge.
    pub poseidon_constants: PoseidonParametersView,
    /// The domain separator.
    pub domain_separator: Seq<u8>,
}

impl<F: PrimeField, Comm: FoldingCommitmentConfig<F>> View for VerifierKey<F, Comm> {
    type V = VerifierKeyView<SlackGroup<F, Comm>>;

    open spec fn view(&self) -> Self::V {
        VerifierKeyView {
            selector_c_commitment: Comm::CommitmentSlack::group_value(
                &self.selector_c_commitment,
            ),
            transcript_seed: self.transcript_seed.value(),
            poseidon_constants: self.poseidon_constants@,
            domain_separator: self.domain_separator@,
        }
    }
}

impl<F: PrimeField, Comm: FoldingCommitmentConfig<F>> Clone for VerifierKey<F, Comm> {
    fn clone(&self) -> (r: Self)
        ensures
            r@ == self@,
    {
        VerifierKey {
            selector_c_commitment: self.selector_c_commitment,
            transcript_seed: self.transcript_seed,
            poseidon_constants: self.poseidon_constants.clone(),
            domain_separator: copy_elements(&self.domain_separator),
        }
    }
}

/// A verifier key as it enters a transcript: the commitment to the constant
/// selector, then the transcript seed.
pub open spec fn verifier_key_encoding<F: PrimeField, Comm: FoldingCommitmentConfig<F>>(
    vk: VerifierKeyView<SlackGroup<F, Comm>>,
) -> Seq<nat> {
    Comm::CommitmentSlack::encoding_spec(vk.selector_c_commitment) + seq![vk.transcript_seed]
}

impl<F: PrimeField, Comm: FoldingCommitmentConfig<F>> VerifierKey<F, Comm> {
    /// Appends the key to a transcript.
    pub fn to_sponge_field_elements(&self, dest: &mut Vec<F>)
        ensures
            values(final(dest)@) == values(old(dest)@) + verifier_key_encoding::<F, Comm>(self@),
    {
        let encoded = Comm::CommitmentSlack::commitment_to_field_elements(
            &self.selector_c_commitment,
        );
        append_elements(dest, &encoded);
        append_element(dest, self.transcript_seed);
        assert(values(dest@) =~= values(old(dest)@) + verifier_key_encoding::<F, Comm>(self@));
    }
}

/// The prover key of the folding scheme: the verifier key, the circuit
/// whose cross terms are computed, the public parameters, and the blinding
/// under which the constant selector was committed.
pub struct ProverKey<F: PrimeField, Comm: FoldingCommitmentConfig<F>> {
    /// The verifier key.
    pub verifier_key: VerifierKey<F, Comm>,
    /// The circuit.
    pub circuit: PLONKCircuit<F>,
    /// The public parameters.
    pub public_parameters: PublicParameters<F, Comm>,
    /// The blinding of the commitment to `q_C`.
    pub selector_c_commit_randomness: F,
}

/// The transcript from which a folding challenge is squeezed: the domain
/// separator, the verifier key, the left instance, the right instance and
/// the prover's message, in this order.
pub open spec fn challenge_transcript<F: PrimeField, Comm: FoldingCommitmentConfig<F>>(
    vk: VerifierKeyView<SlackGroup<F, Comm>>,
    x1: InstanceView<F, Comm>,
    x2: InstanceView<F, Comm>,
    t: SlackGroup<F, Comm>,
) -> Seq<nat> {
    bytes_encoding(vk.domain_separator, F::modulus()) + verifier_key_encoding::<F, Comm>(vk)
        + instance_encoding::<F, Comm>(x1) + instance_encoding::<F, Comm>(x2)
        + Comm::CommitmentSlack::encoding_spec(t)
}

/// The folding challenge: what the sponge yields on the transcript.
pub open spec fn challenge_spec<
    F: PrimeField,
    Comm: FoldingCommitmentConfig<F>,
    RO: FieldBasedCryptographicSponge<F>,
>(
    vk: VerifierKeyView<SlackGroup<F, Comm>>,
    x1: InstanceView<F, Comm>,
    x2: InstanceView<F, Comm>,
    t: SlackGroup<F, Comm>,
) -> nat {
    RO::squeeze_spec(vk.poseidon_constants, challenge_transcript::<F, Comm>(vk, x1, x2, t))
}

/// Derives the folding challenge from the verifier key, the two instances
/// and the prover's message.
pub fn derive_challenge<
    F: PrimeField,
    Comm: FoldingCommitmentConfig<F>,
    RO: FieldBasedCryptographicSponge<F>,
>(
    verifier_key: &VerifierKey<F, Comm>,
    left_instance: &RelaxedPLONKInstance<F, Comm>,
    right_instance: &RelaxedPLONKInstance<F, Comm>,
    prover_message: &SlackCommitment<F, Comm>,
) -> (challenge: F)
    ensures
        challenge.value() == challenge_spec::<F, Comm, RO>(
            verifier_key@,
            left_instance@,
            right_instance@,
            Comm::CommitmentSlack::group_value(prover_message),
        ),
{
    let mut transcript: Vec<F> = Vec::new();
    assert(values(transcript@) =~= Seq::<nat>::empty());
    append_bytes(&mut transcript, &verifier_key.domain_separator);
    verifier_key.to_sponge_field_elements(&mut transcript);
    left_instance.to_sponge_field_elements(&mut transcript);
    right_instance.to_sponge_field_elements(&mut transcript);
    let message = Comm::CommitmentSlack::commitment_to_field_elements(prover_message);
    append_elements(&mut transcript, &message);
    assert(values(transcript@) =~= challenge_transcript::<F, Comm>(
        verifier_key@,
        left_instance@,
        right_instance@,
        Comm::CommitmentSlack::group_value(prover_message),
    ));
    RO::squeeze_after_absorbing(&verifier_key.poseidon_constants, &transcript)
}

/// What a prover key holds, as values.
pub struct ProverKeyView<S, KS, KW> {
    /// The verifier key.
    pub verifier_key: VerifierKeyView<S>,
    /// The circuit.
    pub circuit: CircuitView,
    /// The public parameters.
    pub public_parameters: PublicParametersView<KS, KW>,
    /// The blinding of the commitment to `q_C`.
    pub selector_c_commit_randomness: nat,
}

/// The view of a prover key over the two schemes of `Comm`.
pub type ProvingView<F, Comm> = ProverKeyView<
    SlackGroup<F, Comm>,
    SlackKeyView<F, Comm>,
    WitnessKeyView<F, Comm>,
>;

impl<F: PrimeField, Comm: FoldingCommitmentConfig<F>> View for ProverKey<F, Comm> {
    type V = ProvingView<F, Comm>;

    open spec fn view(&self) -> Self::V {
        ProverKeyView {
            verifier_key: self.verifier_key@,
            circuit: self.circuit@,
            public_parameters: self.public_parameters@,
            selector_c_commit_randomness: self.selector_c_commit_randomness.value(),
        }
    }
}

/// Whether `setup` can be run with these sizes: the length of the larger
/// key is a machine word.
pub open spec fn sizes_fit(number_of_gates: nat, number_of_public_inputs: nat) -> bool {
    number_of_gates + number_of_public_inputs + 1 <= usize::MAX
}


/// Whether the parameters are what `setup` derives from `info`: the sizes,
/// the constants of the transcript and the domain separator as they are
/// given, a key for witness columns of `number_of_gates` entries, and a key
/// for selectors and slack of `number_of_gates + number_of_public_inputs +
/// 1` entries.
pub open spec fn setup_outcome<F: PrimeField, Comm: FoldingCommitmentConfig<F>>(
    info: SetupInfo<F>,
    pp: ParametersView<F, Comm>,
) -> bool {
    &&& pp.number_of_gates == info.number_of_gates
    &&& pp.number_of_public_inputs == info.number_of_public_inputs
    &&& Comm::CommitmentWitness::key_length(pp.commit_key_witness) == info.number_of_gates
    &&& Comm::CommitmentSlack::key_length(pp.commit_key_selectors_and_slack)
        == info.number_of_gates + info.number_of_public_inputs + 1
    &&& pp.poseidon_constants == info.poseidon_constants@
    &&& pp.domain_separator == info.domain_separator@
}

/// Whether `encode` accepts the circuit under the parameters: the circuit
/// has its constant selector, and the selector has the length that the key
/// for selectors supports.
pub open spec fn circuit_encodable<F: PrimeField, Comm: FoldingCommitmentConfig<F>>(
    pp: ParametersView<F, Comm>,
    circuit: CircuitView,
) -> bool {
    &&& CONSTANT_SELECTOR_INDEX < circuit.selectors.len()
    &&& circuit.selectors[CONSTANT_SELECTOR_INDEX as int].len()
        == Comm::CommitmentSlack::key_length(pp.commit_key_selectors_and_slack)
}

/// The prover key that `encode` derives from parameters, circuit and the
/// blinding `rho`: the constant selector committed under `rho`, and the
/// seed squeezed from circuit, parameters and `rho`.
pub open spec fn encode_spec<
    F: PrimeField,
    Comm: FoldingCommitmentConfig<F>,
    RO: FieldBasedCryptographicSponge<F>,
>(pp: ParametersView<F, Comm>, circuit: CircuitView, rho: nat) -> ProvingView<F, Comm> {
    ProverKeyView {
        verifier_key: VerifierKeyView {
            selector_c_commitment: Comm::CommitmentSlack::commit_spec(
                pp.commit_key_selectors_and_slack,
                circuit.selectors[CONSTANT_SELECTOR_INDEX as int],
                rho,
            ),
            transcript_seed: RO::squeeze_spec(
                pp.poseidon_constants,
                circuit_encoding(circuit, F::modulus()) + parameters_encoding(pp, F::modulus())
                    + seq![rho],
            ),
            poseidon_constants: pp.poseidon_constants,
            domain_separator: pp.domain_separator,
        },
        circuit,
        public_parameters: pp,
        selector_c_commit_randomness: rho,
    }
}

/// Derives the prover key and the verifier key from the parameters, the
/// circuit and the blinding of the constant selector. It fails with
/// `IndexOutOfBounds` exactly when the circuit has no constant selector or
/// the selector does not have the length that the key supports.
pub fn encode_with_randomness<
    F: PrimeField,
    Comm: FoldingCommitmentConfig<F>,
    RO: FieldBasedCryptographicSponge<F>,
>(pp: &PublicParameters<F, Comm>, circuit: &PLONKCircuit<F>, randomness_c: F) -> (res: Result<
    (ProverKey<F, Comm>, VerifierKey<F, Comm>),
    SangriaError,
>)
    ensures
        circuit_encodable::<F, Comm>(pp@, circuit@) ==> res is Ok && res->Ok_0.0@ == encode_spec::<
            F,
            Comm,
            RO,
        >(pp@, circuit@, randomness_c.value()) && res->Ok_0.1@ == res->Ok_0.0@.verifier_key,
        !circuit_encodable::<F, Comm>(pp@, circuit@) ==> res == Err::<
            (ProverKey<F, Comm>, VerifierKey<F, Comm>),
            SangriaError,
        >(SangriaError::IndexOutOfBounds),
{
    let c_selector = match circuit.single_selector(CONSTANT_SELECTOR_INDEX) {
        Ok(selector) => selector,
        Err(e) => {
            return Err(e);
        },
    };
    proof {
        assert(values(c_selector@).len() == c_selector.len());
    }
    let commitment_q_c = match Comm::CommitmentSlack::commit(
        &pp.commit_key_selectors_and_slack,
        &c_selector,
        randomness_c,
    ) {
        Ok(commitment) => commitment,
        Err(e) => {
            return Err(e);
        },
    };
    let mut transcript: Vec<F> = Vec::new();
    assert(values(transcript@) =~= Seq::<nat>::empty());
    circuit.to_sponge_field_elements(&mut transcript);
    pp.to_sponge_field_elements(&mut transcript);
    append_element(&mut transcript, randomness_c);
    assert(values(transcript@) =~= circuit_encoding(circuit@, F::modulus())
        + parameters_encoding(pp@, F::modulus()) + seq![randomness_c.value()]);
    let transcript_seed = RO::squeeze_after_absorbing(&pp.poseidon_constants, &transcript);
    let vk = VerifierKey {
        selector_c_commitment: commitment_q_c,
        transcript_seed,
        poseidon_constants: pp.poseidon_constants.clone(),
        domain_separator: copy_elements(&pp.domain_separator),
    };
    let pk = ProverKey {
        circuit: circuit.clone(),
        verifier_key: vk.clone(),
        public_parameters: pp.clone(),
        selector_c_commit_randomness: randomness_c,
    };
    Ok((pk, vk))
}


/// The folded instance that the verifier derives: the two instances folded
/// under the challenge of the transcript.
pub open spec fn verifier_spec<
    F: PrimeField,
    Comm: FoldingCommitmentConfig<F>,
    RO: FieldBasedCryptographicSponge<F>,
>(
    vk: VerifierKeyView<SlackGroup<F, Comm>>,
    x1: InstanceView<F, Comm>,
    x2: InstanceView<F, Comm>,
    t: SlackGroup<F, Comm>,
) -> InstanceView<F, Comm> {
    fold_instance_views::<F, Comm>(x1, x2, t, challenge_spec::<F, Comm, RO>(vk, x1, x2, t))
}


/// Whether the prover can fold the two pairs: the traces can be folded
/// under the circuit, the key for the slack supports vectors as long as the
/// trace, both slack vectors are as long as the trace, and each instance
/// holds one witness commitment for each column of its witness.
pub open spec fn prover_accepts<F: PrimeField, Comm: FoldingCommitmentConfig<F>>(
    pk: ProvingView<F, Comm>,
    x1: InstanceView<F, Comm>,
    w1: RelaxedWitnessView,
    x2: InstanceView<F, Comm>,
    w2: RelaxedWitnessView,
) -> bool {
    let n = trace_length(x1.plonk_instance, w1.plonk_witness);
    &&& traces_foldable(pk.circuit, x1, w1, x2, w2)
    &&& Comm::CommitmentSlack::key_length(pk.public_parameters.commit_key_selectors_and_slack)
        == n
    &&& w1.slack_vector.len() == n
    &&& w2.slack_vector.len() == n
    &&& x1.witness_commitments.len() == w1.plonk_witness.len()
    &&& x2.witness_commitments.len() == w2.plonk_witness.len()
}

/// The prover's message: the commitment to the cross term of the two pairs
/// under the given blinding.
pub open spec fn prover_message_spec<F: PrimeField, Comm: FoldingCommitmentConfig<F>>(
    pk: ProvingView<F, Comm>,
    x1: InstanceView<F, Comm>,
    w1: RelaxedWitnessView,
    x2: InstanceView<F, Comm>,
    w2: RelaxedWitnessView,
    blinding: nat,
) -> SlackGroup<F, Comm> {
    Comm::CommitmentSlack::commit_spec(
        pk.public_parameters.commit_key_selectors_and_slack,
        cross_term(pk.circuit, x1, w1, x2, w2, F::modulus()),
        blinding,
    )
}

/// The folded witness that the prover derives: the two witnesses folded
/// under the challenge of the transcript, with the cross term in the slack.
pub open spec fn prover_witness_spec<
    F: PrimeField,
    Comm: FoldingCommitmentConfig<F>,
    RO: FieldBasedCryptographicSponge<F>,
>(
    pk: ProvingView<F, Comm>,
    x1: InstanceView<F, Comm>,
    w1: RelaxedWitnessView,
    x2: InstanceView<F, Comm>,
    w2: RelaxedWitnessView,
    blinding: nat,
) -> RelaxedWitnessView {
    fold_witness_views(
        w1,
        w2,
        cross_term(pk.circuit, x1, w1, x2, w2, F::modulus()),
        challenge_spec::<F, Comm, RO>(
            pk.verifier_key,
            x1,
            x2,
            prover_message_spec::<F, Comm>(pk, x1, w1, x2, w2, blinding),
        ),
        F::modulus(),
    )
}

/// Whether instance, witness and message are what the prover derives from
/// the two pairs under the given blinding: the message commits to the cross
/// term, the instance is the one that the verifier derives from the
/// message, and the witness is folded under the same challenge.
pub open spec fn prover_outcome<
    F: PrimeField,
    Comm: FoldingCommitmentConfig<F>,
    RO: FieldBasedCryptographicSponge<F>,
>(
    pk: ProvingView<F, Comm>,
    x1: InstanceView<F, Comm>,
    w1: RelaxedWitnessView,
    x2: InstanceView<F, Comm>,
    w2: RelaxedWitnessView,
    instance: InstanceView<F, Comm>,
    witness: RelaxedWitnessView,
    message: SlackGroup<F, Comm>,
    blinding: nat,
) -> bool {
    &&& blinding < F::modulus()
    &&& message == prover_message_spec::<F, Comm>(pk, x1, w1, x2, w2, blinding)
    &&& instance == verifier_spec::<F, Comm, RO>(pk.verifier_key, x1, x2, message)
    &&& witness == prover_witness_spec::<F, Comm, RO>(pk, x1, w1, x2, w2, blinding)
}

/// The folding prover, with the blinding of the cross term given: computes
/// the cross term, commits to it, derives the challenge from the
/// transcript, and folds instances and witnesses under it. The folded
/// instance is the one that the verifier derives from the message. It
/// fails with `IndexOutOfBounds` exactly when the shapes do not fit.
pub fn prover_with_blinding<
    F: PrimeField,
    Comm: FoldingCommitmentConfig<F>,
    RO: FieldBasedCryptographicSponge<F>,
>(
    prover_key: &ProverKey<F, Comm>,
    left_instance: &RelaxedPLONKInstance<F, Comm>,
    left_witness: &RelaxedPLONKWitness<F>,
    right_instance: &RelaxedPLONKInstance<F, Comm>,
    right_witness: &RelaxedPLONKWitness<F>,
    blinding: F,
) -> (res: Result<
    (RelaxedPLONKInstance<F, Comm>, RelaxedPLONKWitness<F>, SlackCommitment<F, Comm>),
    SangriaError,
>)
    ensures
        prover_accepts::<F, Comm>(
            prover_key@,
            left_instance@,
            left_witness@,
            right_instance@,
            right_witness@,
        ) ==> res is Ok && prover_outcome::<F, Comm, RO>(
            prover_key@,
            left_instance@,
            left_witness@,
            right_instance@,
            right_witness@,
            res->Ok_0.0@,
            res->Ok_0.1@,
            Comm::CommitmentSlack::group_value(&res->Ok_0.2),
            blinding.value(),
        ),
        !prover_accepts::<F, Comm>(
            prover_key@,
            left_instance@,
            left_witness@,
            right_instance@,
            right_witness@,
        ) ==> res == Err::<
            (RelaxedPLONKInstance<F, Comm>, RelaxedPLONKWitness<F>, SlackCommitment<F, Comm>),
            SangriaError,
        >(SangriaError::IndexOutOfBounds),
{
    proof {
        blinding.lemma_canonical();
    }
    let left_commitments = left_instance.witness_commitments();
    let right_commitments = right_instance.witness_commitments();
    proof {
        assert(witness_group_values::<F, Comm>(left_commitments@).len()
            == left_commitments.len());
        assert(witness_group_values::<F, Comm>(right_commitments@).len()
            == right_commitments.len());
    }
    if left_commitments.len() != left_witness.plonk_witness().num_columns()
        || right_commitments.len() != right_witness.plonk_witness().num_columns() {
        return Err(SangriaError::IndexOutOfBounds);
    }
    let cross = match compute_cross_term::<F, Comm>(
        &prover_key.circuit,
        left_instance,
        left_witness,
        right_instance,
        right_witness,
    ) {
        Ok(cross) => cross,
        Err(e) => {
            return Err(e);
        },
    };
    proof {
        assert(values(cross@).len() == cross.len());
    }
    let message = match Comm::CommitmentSlack::commit(
        &prover_key.public_parameters.commit_key_selectors_and_slack,
        &cross,
        blinding,
    ) {
        Ok(message) => message,
        Err(e) => {
            return Err(e);
        },
    };
    let challenge = derive_challenge::<F, Comm, RO>(
        &prover_key.verifier_key,
        left_instance,
        right_instance,
        &message,
    );
    let witness = match fold_witnesses(left_witness, right_witness, &cross, &challenge) {
        Ok(witness) => witness,
        Err(e) => {
            return Err(e);
        },
    };
    let instance = match fold_instances::<F, Comm>(
        left_instance,
        right_instance,
        &message,
        &challenge,
    ) {
        Ok(instance) => instance,
        Err(e) => {
            return Err(e);
        },
    };
    Ok((instance, witness, message))
}


/// The all-zero vector of length `n`.
pub open spec fn zeros(n: nat) -> Seq<nat> {
    Seq::new(n, |i: int| 0nat)
}

/// Whether a relaxed pair is trivial: the scaling factor is one and the
/// slack vector is zero everywhere.
pub open spec fn pair_trivial<S, W>(x: RelaxedInstanceView<S, W>, w: RelaxedWitnessView) -> bool {
    &&& x.scaling_factor == 1
    &&& w.slack_vector == zeros(w.slack_vector.len())
}

/// Whether the tables of one execution fit the keys of the parameters:
/// every witness column has the length that the key for witness columns
/// supports, and the trace has the length that the key for the slack
/// supports.
pub open spec fn tables_relaxable<F: PrimeField, Comm: FoldingCommitmentConfig<F>>(
    pp: ParametersView<F, Comm>,
    x: Seq<Seq<nat>>,
    w: Seq<Seq<nat>>,
) -> bool {
    &&& forall|i: int|
        0 <= i < w.len() ==> (#[trigger] w[i]).len() == Comm::CommitmentWitness::key_length(
            pp.commit_key_witness,
        )
    &&& trace_length(x, w) == Comm::CommitmentSlack::key_length(pp.commit_key_selectors_and_slack)
}

/// Whether the tables of one execution can be relaxed under the
/// parameters: there is one blinding factor for each witness column, and
/// the tables fit the keys.
pub open spec fn relax_accepts<F: PrimeField, Comm: FoldingCommitmentConfig<F>>(
    pp: ParametersView<F, Comm>,
    x: Seq<Seq<nat>>,
    w: Seq<Seq<nat>>,
    hidings: Seq<nat>,
) -> bool {
    &&& hidings.len() == w.len()
    &&& tables_relaxable::<F, Comm>(pp, x, w)
}

/// The trivial relaxed instance of an execution: scaling factor one, the
/// commitment to the all-zero slack vector under blinding zero, and each
/// witness column committed under its blinding factor.
pub open spec fn relaxed_instance_spec<F: PrimeField, Comm: FoldingCommitmentConfig<F>>(
    pp: ParametersView<F, Comm>,
    x: Seq<Seq<nat>>,
    w: Seq<Seq<nat>>,
    hidings: Seq<nat>,
) -> InstanceView<F, Comm> {
    RelaxedInstanceView {
        plonk_instance: x,
        scaling_factor: 1,
        slack_commitment: Comm::CommitmentSlack::commit_spec(
            pp.commit_key_selectors_and_slack,
            zeros(trace_length(x, w)),
            0,
        ),
        witness_commitments: Seq::new(
            w.len(),
            |i: int|
                Comm::CommitmentWitness::commit_spec(pp.commit_key_witness, w[i], hidings[i]),
        ),
    }
}

/// The trivial relaxed witness of an execution: the witness table, the
/// all-zero slack vector, and the blinding factors.
pub open spec fn relaxed_witness_spec(
    x: Seq<Seq<nat>>,
    w: Seq<Seq<nat>>,
    hidings: Seq<nat>,
) -> RelaxedWitnessView {
    RelaxedWitnessView {
        plonk_witness: w,
        slack_vector: zeros(trace_length(x, w)),
        commitment_hidings: hidings,
    }
}

/// Turns the tables of one execution into the trivial relaxed pair: commits
/// to every witness column under its blinding factor, and to the all-zero
/// slack vector under blinding zero. It fails with `IndexOutOfBounds`
/// exactly when the lengths do not fit the keys.
pub fn relax<F: PrimeField, Comm: FoldingCommitmentConfig<F>>(
    pp: &PublicParameters<F, Comm>,
    plonk_instance: PLONKInstance<F>,
    plonk_witness: PLONKWitness<F>,
    hidings: Vec<F>,
) -> (res: Result<(RelaxedPLONKInstance<F, Comm>, RelaxedPLONKWitness<F>), SangriaError>)
    ensures
        relax_accepts::<F, Comm>(pp@, plonk_instance@, plonk_witness@, values(hidings@)) ==> res
            is Ok && res->Ok_0.0@ == relaxed_instance_spec::<F, Comm>(
            pp@,
            plonk_instance@,
            plonk_witness@,
            values(hidings@),
        ) && res->Ok_0.1@ == relaxed_witness_spec(
            plonk_instance@,
            plonk_witness@,
            values(hidings@),
        ),
        !relax_accepts::<F, Comm>(pp@, plonk_instance@, plonk_witness@, values(hidings@)) ==> res
            == Err::<(RelaxedPLONKInstance<F, Comm>, RelaxedPLONKWitness<F>), SangriaError>(
            SangriaError::IndexOutOfBounds,
        ),
{
    let columns = plonk_witness.num_columns();
    proof {
        assert(values(hidings@).len() == hidings.len());
    }
    if hidings.len() != columns {
        return Err(SangriaError::IndexOutOfBounds);
    }
    let ghost x = plonk_instance@;
    let ghost w = plonk_witness@;
    let ghost key = pp@.commit_key_witness;
    let mut commitments: Vec<WitnessCommitment<F, Comm>> = Vec::new();
    let mut i: usize = 0;
    while i < columns
        invariant
            i <= columns,
            columns == w.len(),
            w == plonk_witness@,
            key == Comm::CommitmentWitness::key_view(&pp.commit_key_witness),
            hidings.len() == columns,
            commitments.len() == i,
            forall|k: int|
                0 <= k < i ==> (#[trigger] w[k]).len() == Comm::CommitmentWitness::key_length(key)
                    && Comm::CommitmentWitness::group_value(&commitments@[k])
                    == Comm::CommitmentWitness::commit_spec(key, w[k], hidings@[k].value()),
        decreases columns - i,
    {
        let column = match plonk_witness.column(i) {
            Ok(column) => column,
            Err(e) => {
                return Err(e);
            },
        };
        proof {
            assert(values(column@).len() == column.len());
        }
        let commitment = match Comm::CommitmentWitness::commit(
            &pp.commit_key_witness,
            &column,
            hidings[i],
        ) {
            Ok(commitment) => commitment,
            Err(e) => {
                assert(w[i as int].len() != Comm::CommitmentWitness::key_length(key));
                return Err(e);
            },
        };
        commitments.push(commitment);
        i += 1;
    }
    let upper = plonk_instance.num_rows();
    let lower = plonk_witness.num_rows();
    let mut slack: Vec<F> = Vec::new();
    let zero = F::from_u64(0);
    proof {
        zero.lemma_canonical();
        lemma_small_mod(0, F::modulus());
    }
    let mut n: usize = 0;
    while n < upper
        invariant
            n <= upper,
            slack.len() == n,
            zero.value() == 0,
            forall|k: int| 0 <= k < slack.len() ==> (#[trigger] slack@[k]).value() == 0,
        decreases upper - n,
    {
        slack.push(zero);
        n += 1;
    }
    let mut m: usize = 0;
    while m < lower
        invariant
            m <= lower,
            slack.len() == upper + m,
            zero.value() == 0,
            forall|k: int| 0 <= k < slack.len() ==> (#[trigger] slack@[k]).value() == 0,
        decreases lower - m,
    {
        slack.push(zero);
        m += 1;
    }
    proof {
        assert(values(slack@) =~= zeros(trace_length(x, w)));
    }
    let slack_commitment = match Comm::CommitmentSlack::commit(
        &pp.commit_key_selectors_and_slack,
        &slack,
        zero,
    ) {
        Ok(commitment) => commitment,
        Err(e) => {
            return Err(e);
        },
    };
    let one = F::from_u64(1);
    proof {
        lemma_small_mod(1, F::modulus());
    }
    let instance = RelaxedPLONKInstance::new(plonk_instance, one, slack_commitment, commitments);
    proof {
        let expected = relaxed_instance_spec::<F, Comm>(pp@, x, w, values(hidings@));
        assert forall|k: int|
            0 <= k < instance@.witness_commitments.len() implies instance@.witness_commitments[k]
            == expected.witness_commitments[k] by {
            assert(witness_group_values::<F, Comm>(commitments@)[k]
                == Comm::CommitmentWitness::group_value(&commitments@[k]));
            assert(w[k].len() == Comm::CommitmentWitness::key_length(key));
        }
        assert(instance@.witness_commitments =~= expected.witness_commitments);
    }
    match RelaxedPLONKWitness::new(plonk_witness, slack, hidings) {
        Ok(witness) => Ok((instance, witness)),
        Err(e) => Err(e),
    }
}

/// Whether the pair is trivial: the scaling factor is one and the slack
/// vector is zero everywhere.
pub fn pair_is_trivial<F: PrimeField, Comm: FoldingCommitmentConfig<F>>(
    instance: &RelaxedPLONKInstance<F, Comm>,
    witness: &RelaxedPLONKWitness<F>,
) -> (trivial: bool)
    ensures
        trivial == pair_trivial(instance@, witness@),
{
    let one = F::from_u64(1);
    let zero = F::from_u64(0);
    proof {
        zero.lemma_canonical();
        lemma_small_mod(0, F::modulus());
        lemma_small_mod(1, F::modulus());
    }
    if !instance.scaling_factor().equals(&one) {
        return false;
    }
    let slack = witness.slack_vector();
    let mut i: usize = 0;
    while i < slack.len()
        invariant
            i <= slack.len(),
            zero.value() == 0,
            values(slack@) == witness@.slack_vector,
            forall|k: int| 0 <= k < i ==> (#[trigger] slack@[k]).value() == 0,
        decreases slack.len() - i,
    {
        if !slack[i].equals(&zero) {
            assert(values(slack@)[i as int] != 0);
            assert(zeros(witness@.slack_vector.len())[i as int] == 0);
            return false;
        }
        i += 1;
    }
    assert(values(slack@) =~= zeros(witness@.slack_vector.len()));
    true
}

impl<
    F: PrimeField,
    Comm: FoldingCommitmentConfig<F>,
    RO: FieldBasedCryptographicSponge<F>,
> NonInteractiveFoldingScheme for PLONKFoldingScheme<F, Comm, RO> {
    type SetupInfo = SetupInfo<F>;

    type PublicParameters = PublicParameters<F, Comm>;

    type Structure = PLONKCircuit<F>;

    type ProverKey = ProverKey<F, Comm>;

    type VerifierKey = VerifierKey<F, Comm>;

    type Instance = RelaxedPLONKInstance<F, Comm>;

    type Witness = RelaxedPLONKWitness<F>;

    type ProverMessage = SlackCommitment<F, Comm>;

    /// Derives the public parameters: a key of `number_of_gates` entries for
    /// witness columns, a key of `number_of_gates + number_of_public_inputs + 1`
    /// entries for selectors and slack, and the constants of the transcript as
    /// they are given. It fails with `IndexOutOfBounds` exactly when the larger
    /// length is no machine word.
    fn setup(
        info: &SetupInfo<F>,
        rng: &mut StdRng,
    ) -> (res: Result<PublicParameters<F, Comm>, SangriaError>)
        ensures
            sizes_fit(info.number_of_gates as nat, info.number_of_public_inputs as nat) ==> res
                is Ok && setup_outcome::<F, Comm>(*info, res->Ok_0@),
            !sizes_fit(info.number_of_gates as nat, info.number_of_public_inputs as nat) ==> res
                == Err::<PublicParameters<F, Comm>, SangriaError>(SangriaError::IndexOutOfBounds),
    {
        if info.number_of_public_inputs >= usize::MAX - info.number_of_gates {
            return Err(SangriaError::IndexOutOfBounds);
        }
        let commit_key_witness = Comm::CommitmentWitness::setup(rng, info.number_of_gates);
        let commit_key_selectors_and_slack = Comm::CommitmentSlack::setup(
            rng,
            info.number_of_gates + info.number_of_public_inputs + 1,
        );
        Ok(
            PublicParameters {
                number_of_gates: info.number_of_gates,
                number_of_public_inputs: info.number_of_public_inputs,
                commit_key_witness,
                commit_key_selectors_and_slack,
                domain_separator: copy_elements(&info.domain_separator),
                poseidon_constants: info.poseidon_constants.clone(),
            },
        )
    }

    /// Derives the prover key and the verifier key, with a blinding drawn from
    /// the generator: the result is that of `encode_with_randomness` for the
    /// blinding that the prover key holds.
    fn encode(
        pp: &PublicParameters<F, Comm>,
        circuit: &PLONKCircuit<F>,
        rng: &mut StdRng,
    ) -> (res: Result<
        (ProverKey<F, Comm>, VerifierKey<F, Comm>),
        SangriaError,
    >)
        ensures
            circuit_encodable::<F, Comm>(pp@, circuit@) ==> res is Ok && res->Ok_0.0@
                == encode_spec::<
                F,
                Comm,
                RO,
            >(pp@, circuit@, res->Ok_0.0@.selector_c_commit_randomness) && res->Ok_0.1@
                == res->Ok_0.0@.verifier_key,
            !circuit_encodable::<F, Comm>(pp@, circuit@) ==> res == Err::<
                (ProverKey<F, Comm>, VerifierKey<F, Comm>),
                SangriaError,
            >(SangriaError::IndexOutOfBounds),
    {
        let randomness_c = F::random(rng);
        encode_with_randomness::<F, Comm, RO>(pp, circuit, randomness_c)
    }

    /// The folding prover, with the blinding of the cross term drawn from the
    /// generator. Whatever blinding is drawn, the folded instance is the one
    /// that the verifier derives from the message, and the call fails with
    /// `IndexOutOfBounds` exactly when the shapes do not fit.
    fn prover(
        prover_key: &ProverKey<F, Comm>,
        left_instance: &RelaxedPLONKInstance<F, Comm>,
        left_witness: &RelaxedPLONKWitness<F>,
        right_instance: &RelaxedPLONKInstance<F, Comm>,
        right_witness: &RelaxedPLONKWitness<F>,
        rng: &mut StdRng,
    ) -> (res: Result<
        (RelaxedPLONKInstance<F, Comm>, RelaxedPLONKWitness<F>, SlackCommitment<F, Comm>),
        SangriaError,
    >)
        ensures
            prover_accepts::<F, Comm>(
                prover_key@,
                left_instance@,
                left_witness@,
                right_instance@,
                right_witness@,
            ) ==> res is Ok && exists|blinding: nat| #[trigger]
                prover_outcome::<F, Comm, RO>(
                    prover_key@,
                    left_instance@,
                    left_witness@,
                    right_instance@,
                    right_witness@,
                    res->Ok_0.0@,
                    res->Ok_0.1@,
                    Comm::CommitmentSlack::group_value(&res->Ok_0.2),
                    blinding,
                ),
            !prover_accepts::<F, Comm>(
                prover_key@,
                left_instance@,
                left_witness@,
                right_instance@,
                right_witness@,
            ) ==> res == Err::<
                (RelaxedPLONKInstance<F, Comm>, RelaxedPLONKWitness<F>, SlackCommitment<F, Comm>),
                SangriaError,
            >(SangriaError::IndexOutOfBounds),
    {
        let blinding = F::random(rng);
        proof {
            blinding.lemma_canonical();
        }
        let res = prover_with_blinding::<F, Comm, RO>(
            prover_key,
            left_instance,
            left_witness,
            right_instance,
            right_witness,
            blinding,
        );
        proof {
            blinding.lemma_canonical();
            if res is Ok {
                assert(prover_outcome::<F, Comm, RO>(
                    prover_key@,
                    left_instance@,
                    left_witness@,
                    right_instance@,
                    right_witness@,
                    res->Ok_0.0@,
                    res->Ok_0.1@,
                    Comm::CommitmentSlack::group_value(&res->Ok_0.2),
                    blinding.value(),
                ));
            }
        }
        res
    }

    /// The folding verifier: derives the challenge from the transcript itself
    /// and folds the two instances under it. It fails with `IndexOutOfBounds`
    /// exactly when the shapes of the two instances do not fit.
    fn fold_verifier(
        verifier_key: &VerifierKey<F, Comm>,
        left_instance: &RelaxedPLONKInstance<F, Comm>,
        right_instance: &RelaxedPLONKInstance<F, Comm>,
        prover_message: &SlackCommitment<F, Comm>,
    ) -> (res: Result<RelaxedPLONKInstance<F, Comm>, SangriaError>)
        ensures
            instances_compatible(left_instance@, right_instance@) ==> res is Ok && res->Ok_0@
                == verifier_spec::<F, Comm, RO>(
                verifier_key@,
                left_instance@,
                right_instance@,
                Comm::CommitmentSlack::group_value(prover_message),
            ),
            !instances_compatible(left_instance@, right_instance@) ==> res == Err::<
                RelaxedPLONKInstance<F, Comm>,
                SangriaError,
            >(SangriaError::IndexOutOfBounds),
    {
        let challenge = derive_challenge::<F, Comm, RO>(
            verifier_key,
            left_instance,
            right_instance,
            prover_message,
        );
        fold_instances::<F, Comm>(left_instance, right_instance, prover_message, &challenge)
    }
}

} // verus!
