//! The driver of incrementally verifiable computation: on each curve of the
//! cycle a running pair that folds in one step after the other, and the
//! two curves side by side.

use ark_std::rand::rngs::StdRng;
use crate::{NonInteractiveFoldingScheme, StepCircuit, IVC};
use crate::errors::SangriaError;
use crate::field::{values, PrimeField};
use crate::folding_scheme::{
    circuit_encodable, encode_spec, pair_is_trivial, pair_trivial, prover_accepts, prover_outcome,
    relax, relaxed_instance_spec, relaxed_witness_spec, setup_outcome, sizes_fit, tables_relaxable,
    FoldingCommitmentConfig, PLONKFoldingScheme, ParametersView, ProvingView, SetupInfo,
    SlackCommitment, SlackKey, SlackKeyView, WitnessKey, WitnessKeyView,
};
use crate::relation::{
    copy_constraints_hold, copy_constraints_satisfied, gates_hold, gates_satisfied,
    slack_commitment_opens, slack_commitment_satisfied, witness_commitments_open,
    witness_commitments_satisfied,
};
use crate::relaxed_plonk::{
    CircuitView, InstanceView, PLONKCircuit, PLONKInstance, PLONKWitness, RelaxedPLONKInstance,
    RelaxedPLONKWitness, RelaxedWitnessView,
};
use crate::transcript::FieldBasedCryptographicSponge;
use crate::vector_commitment::HomomorphicCommitmentScheme;
use std::marker::PhantomData;
use vstd::arithmetic::div_mod::lemma_small_mod;
use vstd::prelude::*;

verus! {

/// The types of one instantiation over a cycle of two curves: for the main
/// field and for the helper field, the commitment schemes and the sponge of
/// the transcript.
pub trait SangriaIVCConfig<MainField: PrimeField, HelperField: PrimeField> {
    /// The commitment schemes over the main field.
    type MainCommitmentSchemes: FoldingCommitmentConfig<MainField>;

    /// The commitment schemes over the helper field.
    type HelperCommitmentSchemes: FoldingCommitmentConfig<HelperField>;

    /// The sponge over the main field.
    type MainSponge: FieldBasedCryptographicSponge<MainField>;

    /// The sponge over the helper field.
    type HelperSponge: FieldBasedCryptographicSponge<HelperField>;
}

/// The proof on one curve: the running pair, which holds the steps folded
/// so far, and the pair of the latest step.
pub struct HalfCycleProof<F: PrimeField, Comm: FoldingCommitmentConfig<F>> {
    /// The instance of the latest step.
    pub latest_step_instance: RelaxedPLONKInstance<F, Comm>,
    /// The witness of the latest step.
    pub latest_step_witness: RelaxedPLONKWitness<F>,
    /// The running instance.
    pub running_instance: RelaxedPLONKInstance<F, Comm>,
    /// The running witness.
    pub running_witness: RelaxedPLONKWitness<F>,
}

/// Whether a pair is valid under circuit and key: it satisfies the relaxed
/// relation of the circuit, gates and copy constraints, and its witness
/// commitments open to its witness.
pub open spec fn pair_valid<F: PrimeField, Comm: FoldingCommitmentConfig<F>>(
    circuit: CircuitView,
    key: WitnessKeyView<F, Comm>,
    x: InstanceView<F, Comm>,
    w: RelaxedWitnessView,
) -> bool {
    &&& gates_hold(circuit, x, w, F::modulus())
    &&& copy_constraints_hold(circuit, x, w)
    &&& witness_commitments_open::<F, Comm>(key, x, w)
}

/// Whether the proof on one curve is valid: the running pair is valid, and
/// the pair of the latest step is valid and trivial, with the commitment to
/// its zero slack under blinding zero as its slack commitment.
pub open spec fn half_cycle_valid<F: PrimeField, Comm: FoldingCommitmentConfig<F>>(
    circuit: CircuitView,
    key: WitnessKeyView<F, Comm>,
    slack_key: SlackKeyView<F, Comm>,
    proof: HalfCycleProof<F, Comm>,
) -> bool {
    &&& pair_valid::<F, Comm>(circuit, key, proof.running_instance@, proof.running_witness@)
    &&& pair_valid::<F, Comm>(
        circuit,
        key,
        proof.latest_step_instance@,
        proof.latest_step_witness@,
    )
    &&& pair_trivial(proof.latest_step_instance@, proof.latest_step_witness@)
    &&& slack_commitment_opens::<F, Comm>(
        slack_key,
        proof.latest_step_instance@,
        proof.latest_step_witness@,
        0,
    )
}

/// Whether the pair is valid under circuit and key.
pub fn pair_is_valid<F: PrimeField, Comm: FoldingCommitmentConfig<F>>(
    circuit: &PLONKCircuit<F>,
    commit_key_witness: &WitnessKey<F, Comm>,
    instance: &RelaxedPLONKInstance<F, Comm>,
    witness: &RelaxedPLONKWitness<F>,
) -> (valid: bool)
    ensures
        valid == pair_valid::<F, Comm>(
            circuit@,
            Comm::CommitmentWitness::key_view(commit_key_witness),
            instance@,
            witness@,
        ),
{
    let gates = gates_satisfied::<F, Comm>(circuit, instance, witness);
    let copies = copy_constraints_satisfied::<F, Comm>(circuit, instance, witness);
    let commitments = witness_commitments_satisfied::<F, Comm>(
        commit_key_witness,
        instance,
        witness,
    );
    gates && copies && commitments
}

/// Verifies the proof on one curve: accepts exactly the valid proofs, and
/// rejects every other with `IndexOutOfBounds`.
pub fn half_cycle_verify<F: PrimeField, Comm: FoldingCommitmentConfig<F>>(
    circuit: &PLONKCircuit<F>,
    commit_key_witness: &WitnessKey<F, Comm>,
    commit_key_slack: &SlackKey<F, Comm>,
    proof: &HalfCycleProof<F, Comm>,
) -> (res: Result<(), SangriaError>)
    ensures
        res is Ok <==> half_cycle_valid::<F, Comm>(
            circuit@,
            Comm::CommitmentWitness::key_view(commit_key_witness),
            Comm::CommitmentSlack::key_view(commit_key_slack),
            *proof,
        ),
        res is Err ==> res == Err::<(), SangriaError>(SangriaError::IndexOutOfBounds),
{
    let running = pair_is_valid::<F, Comm>(
        circuit,
        commit_key_witness,
        &proof.running_instance,
        &proof.running_witness,
    );
    let latest = pair_is_valid::<F, Comm>(
        circuit,
        commit_key_witness,
        &proof.latest_step_instance,
        &proof.latest_step_witness,
    );
    let trivial = pair_is_trivial::<F, Comm>(
        &proof.latest_step_instance,
        &proof.latest_step_witness,
    );
    let zero = F::from_u64(0);
    proof {
        zero.lemma_canonical();
        lemma_small_mod(0, F::modulus());
    }
    let opens = slack_commitment_satisfied::<F, Comm>(
        commit_key_slack,
        &proof.latest_step_instance,
        &proof.latest_step_witness,
        zero,
    );
    if running && latest && trivial && opens {
        Ok(())
    } else {
        Err(SangriaError::IndexOutOfBounds)
    }
}

/// The base case on one curve: the running pair is the trivial pair of
/// the origin. Its tables are the tables of the origin, its scaling factor
/// is one, its slack is zero everywhere, and its slack commitment is the
/// commitment to that slack under blinding zero.
pub open spec fn half_cycle_starts_at<F: PrimeField, Comm: FoldingCommitmentConfig<F>>(
    slack_key: SlackKeyView<F, Comm>,
    proof: HalfCycleProof<F, Comm>,
    origin_instance: Seq<Seq<nat>>,
    origin_witness: Seq<Seq<nat>>,
) -> bool {
    &&& pair_trivial(proof.running_instance@, proof.running_witness@)
    &&& proof.running_instance@.plonk_instance == origin_instance
    &&& proof.running_witness@.plonk_witness == origin_witness
    &&& slack_commitment_opens::<F, Comm>(
        slack_key,
        proof.running_instance@,
        proof.running_witness@,
        0,
    )
}

/// Whether the base case holds of the proof on one curve.
pub fn half_cycle_checks_origin<F: PrimeField, Comm: FoldingCommitmentConfig<F>>(
    proof: &HalfCycleProof<F, Comm>,
    slack_key: &SlackKey<F, Comm>,
    origin_instance: &PLONKInstance<F>,
    origin_witness: &PLONKWitness<F>,
) -> (holds: bool)
    ensures
        holds == half_cycle_starts_at::<F, Comm>(
            Comm::CommitmentSlack::key_view(slack_key),
            *proof,
            origin_instance@,
            origin_witness@,
        ),
{
    let trivial = pair_is_trivial::<F, Comm>(&proof.running_instance, &proof.running_witness);
    let same_instance = proof.running_instance.plonk_instance().same_as(origin_instance);
    let same_witness = proof.running_witness.plonk_witness().same_as(origin_witness);
    let zero = F::from_u64(0);
    proof {
        zero.lemma_canonical();
        lemma_small_mod(0, F::modulus());
    }
    let opens = slack_commitment_satisfied::<F, Comm>(
        slack_key,
        &proof.running_instance,
        &proof.running_witness,
        zero,
    );
    trivial && same_instance && same_witness && opens
}

/// Whether `next` is what one step makes of `current`: the running pair of
/// `next` is the fold of the two pairs of `current`, with `message` as the
/// prover's message under the given blinding, and the latest pair of `next`
/// is the pair of the new step.
pub open spec fn half_cycle_advanced<
    F: PrimeField,
    Comm: FoldingCommitmentConfig<F>,
    RO: FieldBasedCryptographicSponge<F>,
>(
    pk: ProvingView<F, Comm>,
    current: HalfCycleProof<F, Comm>,
    step_instance: InstanceView<F, Comm>,
    step_witness: RelaxedWitnessView,
    next: HalfCycleProof<F, Comm>,
    message: SlackCommitment<F, Comm>,
    blinding: nat,
) -> bool {
    &&& prover_outcome::<F, Comm, RO>(
        pk,
        current.running_instance@,
        current.running_witness@,
        current.latest_step_instance@,
        current.latest_step_witness@,
        next.running_instance@,
        next.running_witness@,
        Comm::CommitmentSlack::group_value(&message),
        blinding,
    )
    &&& next.latest_step_instance@ == step_instance
    &&& next.latest_step_witness@ == step_witness
}

/// Proves one step on one curve: folds the pair of the latest step into the
/// running pair, and takes the pair of the new step as the latest. It
/// fails with `IndexOutOfBounds` exactly when the folding prover does not
/// accept the two pairs of the current proof.
pub fn half_cycle_prove_step<
    F: PrimeField,
    Comm: FoldingCommitmentConfig<F>,
    RO: FieldBasedCryptographicSponge<F>,
>(
    prover_key: &crate::folding_scheme::ProverKey<F, Comm>,
    current: &HalfCycleProof<F, Comm>,
    step_instance: RelaxedPLONKInstance<F, Comm>,
    step_witness: RelaxedPLONKWitness<F>,
    rng: &mut StdRng,
) -> (res: Result<(HalfCycleProof<F, Comm>, SlackCommitment<F, Comm>), SangriaError>)
    ensures
        prover_accepts::<F, Comm>(
            prover_key@,
            current.running_instance@,
            current.running_witness@,
            current.latest_step_instance@,
            current.latest_step_witness@,
        ) ==> res is Ok && exists|blinding: nat| #[trigger]
            half_cycle_advanced::<F, Comm, RO>(
                prover_key@,
                *current,
                step_instance@,
                step_witness@,
                res->Ok_0.0,
                res->Ok_0.1,
                blinding,
            ),
        !prover_accepts::<F, Comm>(
            prover_key@,
            current.running_instance@,
            current.running_witness@,
            current.latest_step_instance@,
            current.latest_step_witness@,
        ) ==> res == Err::<(HalfCycleProof<F, Comm>, SlackCommitment<F, Comm>), SangriaError>(
            SangriaError::IndexOutOfBounds,
        ),
{
    let folded = PLONKFoldingScheme::<F, Comm, RO>::prover(
        prover_key,
        &current.running_instance,
        &current.running_witness,
        &current.latest_step_instance,
        &current.latest_step_witness,
        rng,
    );
    match folded {
        Ok((running_instance, running_witness, message)) => {
            let next = HalfCycleProof {
                latest_step_instance: step_instance,
                latest_step_witness: step_witness,
                running_instance,
                running_witness,
            };
            let ghost witnessed;
            proof {
                let blinding = choose|blinding: nat| #[trigger]
                    prover_outcome::<F, Comm, RO>(
                        prover_key@,
                        current.running_instance@,
                        current.running_witness@,
                        current.latest_step_instance@,
                        current.latest_step_witness@,
                        running_instance@,
                        running_witness@,
                        Comm::CommitmentSlack::group_value(&message),
                        blinding,
                    );
                assert(half_cycle_advanced::<F, Comm, RO>(
                    prover_key@,
                    *current,
                    step_instance@,
                    step_witness@,
                    next,
                    message,
                    blinding,
                ));
                witnessed = blinding;
            }
            let res = Ok((next, message));
            assert(half_cycle_advanced::<F, Comm, RO>(
                prover_key@,
                *current,
                step_instance@,
                step_witness@,
                res->Ok_0.0,
                res->Ok_0.1,
                witnessed,
            ));
            res
        },
        Err(e) => Err(e),
    }
}

/// The commitment schemes of the main curve.
pub type MainSchemes<MainField, HelperField, Config> = <Config as SangriaIVCConfig<
    MainField,
    HelperField,
>>::MainCommitmentSchemes;

/// The commitment schemes of the helper curve.
pub type HelperSchemes<MainField, HelperField, Config> = <Config as SangriaIVCConfig<
    MainField,
    HelperField,
>>::HelperCommitmentSchemes;

/// The scheme that commits to witness columns over the main field.
pub type MainWitnessScheme<MainField, HelperField, Config> = <MainSchemes<
    MainField,
    HelperField,
    Config,
> as FoldingCommitmentConfig<MainField>>::CommitmentWitness;

/// The scheme that commits to witness columns over the helper field.
pub type HelperWitnessScheme<MainField, HelperField, Config> = <HelperSchemes<
    MainField,
    HelperField,
    Config,
> as FoldingCommitmentConfig<HelperField>>::CommitmentWitness;

/// The scheme that commits to the slack over the main field.
pub type MainSlackScheme<MainField, HelperField, Config> = <MainSchemes<
    MainField,
    HelperField,
    Config,
> as FoldingCommitmentConfig<MainField>>::CommitmentSlack;

/// The scheme that commits to the slack over the helper field.
pub type HelperSlackScheme<MainField, HelperField, Config> = <HelperSchemes<
    MainField,
    HelperField,
    Config,
> as FoldingCommitmentConfig<HelperField>>::CommitmentSlack;

/// The sponge of the main curve's transcript.
pub type MainSponge<MainField, HelperField, Config> = <Config as SangriaIVCConfig<
    MainField,
    HelperField,
>>::MainSponge;

/// The sponge of the helper curve's transcript.
pub type HelperSponge<MainField, HelperField, Config> = <Config as SangriaIVCConfig<
    MainField,
    HelperField,
>>::HelperSponge;

/// A proof of all the steps run so far: one proof on each curve of the
/// cycle.
pub struct IVCProof<
    MainField: PrimeField,
    HelperField: PrimeField,
    Config: SangriaIVCConfig<MainField, HelperField>,
> {
    /// The proof on the main curve.
    pub main_half_proof: HalfCycleProof<MainField, MainSchemes<MainField, HelperField, Config>>,
    /// The proof on the helper curve.
    pub helper_half_proof: HalfCycleProof<
        HelperField,
        HelperSchemes<MainField, HelperField, Config>,
    >,
}

/// Public parameters of the scheme: those of the folding scheme on each
/// curve.
pub struct PublicParameters<
    MainField: PrimeField,
    HelperField: PrimeField,
    Config: SangriaIVCConfig<MainField, HelperField>,
> {
    /// The parameters of the folding scheme over the main field.
    pub main_nifs_pp: crate::folding_scheme::PublicParameters<
        MainField,
        MainSchemes<MainField, HelperField, Config>,
    >,
    /// The parameters of the folding scheme over the helper field.
    pub helper_nifs_pp: crate::folding_scheme::PublicParameters<
        HelperField,
        HelperSchemes<MainField, HelperField, Config>,
    >,
}

/// The prover key of the scheme: the prover keys of the folding scheme on
/// each curve, and the step circuit.
pub struct ProverKey<
    MainField: PrimeField,
    HelperField: PrimeField,
    Config: SangriaIVCConfig<MainField, HelperField>,
    SC: StepCircuit<MainField>,
> {
    /// The prover key of the folding scheme over the main field.
    pub main_nifs_pk: crate::folding_scheme::ProverKey<
        MainField,
        MainSchemes<MainField, HelperField, Config>,
    >,
    /// The prover key of the folding scheme over the helper field.
    pub helper_nifs_pk: crate::folding_scheme::ProverKey<
        HelperField,
        HelperSchemes<MainField, HelperField, Config>,
    >,
    /// The step circuit.
    pub step_circuit: SC,
}

/// The verifier key of the scheme: on each curve the verifier key of the
/// folding scheme, the circuit, and the two commitment keys; and the step
/// circuit.
pub struct VerifierKey<
    MainField: PrimeField,
    HelperField: PrimeField,
    Config: SangriaIVCConfig<MainField, HelperField>,
    SC: StepCircuit<MainField>,
> {
    /// The verifier key of the folding scheme over the main field.
    pub main_nifs_vk: crate::folding_scheme::VerifierKey<
        MainField,
        MainSchemes<MainField, HelperField, Config>,
    >,
    /// The verifier key of the folding scheme over the helper field.
    pub helper_nifs_vk: crate::folding_scheme::VerifierKey<
        HelperField,
        HelperSchemes<MainField, HelperField, Config>,
    >,
    /// The circuit of a step, over the main field.
    pub main_circuit: PLONKCircuit<MainField>,
    /// The circuit that accompanies a step, over the helper field.
    pub helper_circuit: PLONKCircuit<HelperField>,
    /// The key for witness columns over the main field.
    pub main_commit_key_witness: WitnessKey<
        MainField,
        MainSchemes<MainField, HelperField, Config>,
    >,
    /// The key for witness columns over the helper field.
    pub helper_commit_key_witness: WitnessKey<
        HelperField,
        HelperSchemes<MainField, HelperField, Config>,
    >,
    /// The key for the slack over the main field.
    pub main_commit_key_slack: SlackKey<MainField, MainSchemes<MainField, HelperField, Config>>,
    /// The key for the slack over the helper field.
    pub helper_commit_key_slack: SlackKey<
        HelperField,
        HelperSchemes<MainField, HelperField, Config>,
    >,
    /// The step circuit.
    pub step_circuit: SC,
}

/// Incrementally verifiable computation from the folding scheme, over a
/// cycle of two curves and without compression: a proof holds its
/// witnesses, so it is neither succinct nor zero-knowledge.
pub struct SangriaNoCompression<
    MainField: PrimeField,
    HelperField: PrimeField,
    Config: SangriaIVCConfig<MainField, HelperField>,
    SC: StepCircuit<MainField>,
>(pub PhantomData<(MainField, HelperField, Config, SC)>);

impl<
    MainField: PrimeField,
    HelperField: PrimeField,
    Config: SangriaIVCConfig<MainField, HelperField>,
    SC: StepCircuit<MainField>,
> SangriaNoCompression<MainField, HelperField, Config, SC> {
    /// Derives the public parameters of both curves. It fails with
    /// `IndexOutOfBounds` exactly when the sizes of one of the two do not
    /// fit a machine word.
    pub fn setup_curves(
        main_info: &SetupInfo<MainField>,
        helper_info: &SetupInfo<HelperField>,
        rng: &mut StdRng,
    ) -> (res: Result<PublicParameters<MainField, HelperField, Config>, SangriaError>)
        ensures
            res is Ok <==> sizes_fit(
                main_info.number_of_gates as nat,
                main_info.number_of_public_inputs as nat,
            ) && sizes_fit(
                helper_info.number_of_gates as nat,
                helper_info.number_of_public_inputs as nat,
            ),
            res is Ok ==> setup_outcome::<MainField, MainSchemes<MainField, HelperField, Config>>(
                *main_info,
                res->Ok_0.main_nifs_pp@,
            ) && setup_outcome::<HelperField, HelperSchemes<MainField, HelperField, Config>>(
                *helper_info,
                res->Ok_0.helper_nifs_pp@,
            ),
            res is Err ==> res == Err::<
                PublicParameters<MainField, HelperField, Config>,
                SangriaError,
            >(SangriaError::IndexOutOfBounds),
    {
        let main_nifs_pp = match PLONKFoldingScheme::<
            MainField,
            MainSchemes<MainField, HelperField, Config>,
            MainSponge<MainField, HelperField, Config>,
        >::setup(main_info, rng) {
            Ok(pp) => pp,
            Err(e) => {
                return Err(e);
            },
        };
        let helper_nifs_pp = match PLONKFoldingScheme::<
            HelperField,
            HelperSchemes<MainField, HelperField, Config>,
            HelperSponge<MainField, HelperField, Config>,
        >::setup(helper_info, rng) {
            Ok(pp) => pp,
            Err(e) => {
                return Err(e);
            },
        };
        Ok(PublicParameters { main_nifs_pp, helper_nifs_pp })
    }

    /// Derives the keys of both curves from the parameters and the two
    /// circuits, and gives each key its copy of the step circuit. It fails
    /// with `IndexOutOfBounds` exactly when the folding scheme of one of the
    /// two curves does not accept its circuit.
    pub fn encode_circuits(
        public_parameters: &PublicParameters<MainField, HelperField, Config>,
        main_circuit: &PLONKCircuit<MainField>,
        helper_circuit: &PLONKCircuit<HelperField>,
        prover_step_circuit: SC,
        verifier_step_circuit: SC,
        rng: &mut StdRng,
    ) -> (res: Result<
        (
            ProverKey<MainField, HelperField, Config, SC>,
            VerifierKey<MainField, HelperField, Config, SC>,
        ),
        SangriaError,
    >)
        ensures
            res is Ok <==> circuit_encodable::<
                MainField,
                MainSchemes<MainField, HelperField, Config>,
            >(public_parameters.main_nifs_pp@, main_circuit@) && circuit_encodable::<
                HelperField,
                HelperSchemes<MainField, HelperField, Config>,
            >(public_parameters.helper_nifs_pp@, helper_circuit@),
            res is Ok ==> {
                let (pk, vk) = res->Ok_0;
                &&& pk.main_nifs_pk@ == encode_spec::<
                    MainField,
                    MainSchemes<MainField, HelperField, Config>,
                    MainSponge<MainField, HelperField, Config>,
                >(
                    public_parameters.main_nifs_pp@,
                    main_circuit@,
                    pk.main_nifs_pk@.selector_c_commit_randomness,
                )
                &&& pk.helper_nifs_pk@ == encode_spec::<
                    HelperField,
                    HelperSchemes<MainField, HelperField, Config>,
                    HelperSponge<MainField, HelperField, Config>,
                >(
                    public_parameters.helper_nifs_pp@,
                    helper_circuit@,
                    pk.helper_nifs_pk@.selector_c_commit_randomness,
                )
                &&& vk.main_nifs_vk@ == pk.main_nifs_pk@.verifier_key
                &&& vk.helper_nifs_vk@ == pk.helper_nifs_pk@.verifier_key
                &&& vk.main_circuit@ == main_circuit@
                &&& vk.helper_circuit@ == helper_circuit@
                &&& <MainWitnessScheme<MainField, HelperField, Config>>::key_view(
                    &vk.main_commit_key_witness,
                ) == public_parameters.main_nifs_pp@.commit_key_witness
                &&& <HelperWitnessScheme<MainField, HelperField, Config>>::key_view(
                    &vk.helper_commit_key_witness,
                ) == public_parameters.helper_nifs_pp@.commit_key_witness
                &&& <MainSlackScheme<MainField, HelperField, Config>>::key_view(
                    &vk.main_commit_key_slack,
                ) == public_parameters.main_nifs_pp@.commit_key_selectors_and_slack
                &&& <HelperSlackScheme<MainField, HelperField, Config>>::key_view(
                    &vk.helper_commit_key_slack,
                ) == public_parameters.helper_nifs_pp@.commit_key_selectors_and_slack
                &&& pk.step_circuit == prover_step_circuit
                &&& vk.step_circuit == verifier_step_circuit
            },
            res is Err ==> res == Err::<
                (
                    ProverKey<MainField, HelperField, Config, SC>,
                    VerifierKey<MainField, HelperField, Config, SC>,
                ),
                SangriaError,
            >(SangriaError::IndexOutOfBounds),
    {
        let (main_nifs_pk, main_nifs_vk) = match PLONKFoldingScheme::<
            MainField,
            MainSchemes<MainField, HelperField, Config>,
            MainSponge<MainField, HelperField, Config>,
        >::encode(&public_parameters.main_nifs_pp, main_circuit, rng) {
            Ok(keys) => keys,
            Err(e) => {
                return Err(e);
            },
        };
        let (helper_nifs_pk, helper_nifs_vk) = match PLONKFoldingScheme::<
            HelperField,
            HelperSchemes<MainField, HelperField, Config>,
            HelperSponge<MainField, HelperField, Config>,
        >::encode(&public_parameters.helper_nifs_pp, helper_circuit, rng) {
            Ok(keys) => keys,
            Err(e) => {
                return Err(e);
            },
        };
        let vk = VerifierKey {
            main_nifs_vk,
            helper_nifs_vk,
            main_circuit: main_circuit.clone(),
            helper_circuit: helper_circuit.clone(),
            main_commit_key_witness: <MainWitnessScheme<MainField, HelperField, Config>>::clone_key(
                &public_parameters.main_nifs_pp.commit_key_witness,
            ),
            helper_commit_key_witness: <HelperWitnessScheme<
                MainField,
                HelperField,
                Config,
            >>::clone_key(&public_parameters.helper_nifs_pp.commit_key_witness),
            main_commit_key_slack: <MainSlackScheme<MainField, HelperField, Config>>::clone_key(
                &public_parameters.main_nifs_pp.commit_key_selectors_and_slack,
            ),
            helper_commit_key_slack: <HelperSlackScheme<
                MainField,
                HelperField,
                Config,
            >>::clone_key(&public_parameters.helper_nifs_pp.commit_key_selectors_and_slack),
            step_circuit: verifier_step_circuit,
        };
        Ok((ProverKey { main_nifs_pk, helper_nifs_pk, step_circuit: prover_step_circuit }, vk))
    }

    /// Folds in one step, with the pairs of the new step given: on each
    /// curve, folds the pair of the latest step into the running pair and
    /// takes the pair of the new step as the latest. It fails with
    /// `IndexOutOfBounds` exactly when the folding prover of one of the two
    /// curves does not accept the two pairs that the current proof holds on
    /// its curve.
    pub fn fold_step(
        prover_key: &ProverKey<MainField, HelperField, Config, SC>,
        current_proof: &IVCProof<MainField, HelperField, Config>,
        main_step_instance: RelaxedPLONKInstance<
            MainField,
            MainSchemes<MainField, HelperField, Config>,
        >,
        main_step_witness: RelaxedPLONKWitness<MainField>,
        helper_step_instance: RelaxedPLONKInstance<
            HelperField,
            HelperSchemes<MainField, HelperField, Config>,
        >,
        helper_step_witness: RelaxedPLONKWitness<HelperField>,
        rng: &mut StdRng,
    ) -> (res: Result<IVCProof<MainField, HelperField, Config>, SangriaError>)
        ensures
            res is Ok <==> prover_accepts::<MainField, MainSchemes<MainField, HelperField, Config>>(
                prover_key.main_nifs_pk@,
                current_proof.main_half_proof.running_instance@,
                current_proof.main_half_proof.running_witness@,
                current_proof.main_half_proof.latest_step_instance@,
                current_proof.main_half_proof.latest_step_witness@,
            ) && prover_accepts::<HelperField, HelperSchemes<MainField, HelperField, Config>>(
                prover_key.helper_nifs_pk@,
                current_proof.helper_half_proof.running_instance@,
                current_proof.helper_half_proof.running_witness@,
                current_proof.helper_half_proof.latest_step_instance@,
                current_proof.helper_half_proof.latest_step_witness@,
            ),
            res is Ok ==> (exists|
                message: SlackCommitment<MainField, MainSchemes<MainField, HelperField, Config>>,
                blinding: nat,
            | #[trigger]
                half_cycle_advanced::<
                    MainField,
                    MainSchemes<MainField, HelperField, Config>,
                    MainSponge<MainField, HelperField, Config>,
                >(
                    prover_key.main_nifs_pk@,
                    current_proof.main_half_proof,
                    main_step_instance@,
                    main_step_witness@,
                    res->Ok_0.main_half_proof,
                    message,
                    blinding,
                )) && (exists|
                message: SlackCommitment<
                    HelperField,
                    HelperSchemes<MainField, HelperField, Config>,
                >,
                blinding: nat,
            | #[trigger]
                half_cycle_advanced::<
                    HelperField,
                    HelperSchemes<MainField, HelperField, Config>,
                    HelperSponge<MainField, HelperField, Config>,
                >(
                    prover_key.helper_nifs_pk@,
                    current_proof.helper_half_proof,
                    helper_step_instance@,
                    helper_step_witness@,
                    res->Ok_0.helper_half_proof,
                    message,
                    blinding,
                )),
            res is Err ==> res == Err::<IVCProof<MainField, HelperField, Config>, SangriaError>(
                SangriaError::IndexOutOfBounds,
            ),
    {
        let (main_half_proof, main_message) = match half_cycle_prove_step::<
            MainField,
            MainSchemes<MainField, HelperField, Config>,
            MainSponge<MainField, HelperField, Config>,
        >(
            &prover_key.main_nifs_pk,
            &current_proof.main_half_proof,
            main_step_instance,
            main_step_witness,
            rng,
        ) {
            Ok(advanced) => advanced,
            Err(e) => {
                return Err(e);
            },
        };
        let (helper_half_proof, helper_message) = match half_cycle_prove_step::<
            HelperField,
            HelperSchemes<MainField, HelperField, Config>,
            HelperSponge<MainField, HelperField, Config>,
        >(
            &prover_key.helper_nifs_pk,
            &current_proof.helper_half_proof,
            helper_step_instance,
            helper_step_witness,
            rng,
        ) {
            Ok(advanced) => advanced,
            Err(e) => {
                return Err(e);
            },
        };
        let ghost main_blinding = choose|blinding: nat| #[trigger]
            half_cycle_advanced::<
                MainField,
                MainSchemes<MainField, HelperField, Config>,
                MainSponge<MainField, HelperField, Config>,
            >(
                prover_key.main_nifs_pk@,
                current_proof.main_half_proof,
                main_step_instance@,
                main_step_witness@,
                main_half_proof,
                main_message,
                blinding,
            );
        let ghost helper_blinding = choose|blinding: nat| #[trigger]
            half_cycle_advanced::<
                HelperField,
                HelperSchemes<MainField, HelperField, Config>,
                HelperSponge<MainField, HelperField, Config>,
            >(
                prover_key.helper_nifs_pk@,
                current_proof.helper_half_proof,
                helper_step_instance@,
                helper_step_witness@,
                helper_half_proof,
                helper_message,
                blinding,
            );
        let res = Ok(IVCProof { main_half_proof, helper_half_proof });
        assert(half_cycle_advanced::<
            MainField,
            MainSchemes<MainField, HelperField, Config>,
            MainSponge<MainField, HelperField, Config>,
        >(
            prover_key.main_nifs_pk@,
            current_proof.main_half_proof,
            main_step_instance@,
            main_step_witness@,
            res->Ok_0.main_half_proof,
            main_message,
            main_blinding,
        ));
        assert(half_cycle_advanced::<
            HelperField,
            HelperSchemes<MainField, HelperField, Config>,
            HelperSponge<MainField, HelperField, Config>,
        >(
            prover_key.helper_nifs_pk@,
            current_proof.helper_half_proof,
            helper_step_instance@,
            helper_step_witness@,
            res->Ok_0.helper_half_proof,
            helper_message,
            helper_blinding,
        ));
        res
    }

    /// Checks a proof: accepts exactly the proofs that are valid on both
    /// curves, and rejects every other with `IndexOutOfBounds`.
    pub fn check(
        verifier_key: &VerifierKey<MainField, HelperField, Config, SC>,
        current_proof: &IVCProof<MainField, HelperField, Config>,
    ) -> (res: Result<(), SangriaError>)
        ensures
            res is Ok <==> proof_valid::<MainField, HelperField, Config, SC>(
                *verifier_key,
                *current_proof,
            ),
            res is Err ==> res == Err::<(), SangriaError>(SangriaError::IndexOutOfBounds),
    {
        let main = half_cycle_verify::<MainField, MainSchemes<MainField, HelperField, Config>>(
            &verifier_key.main_circuit,
            &verifier_key.main_commit_key_witness,
            &verifier_key.main_commit_key_slack,
            &current_proof.main_half_proof,
        );
        let helper = half_cycle_verify::<
            HelperField,
            HelperSchemes<MainField, HelperField, Config>,
        >(
            &verifier_key.helper_circuit,
            &verifier_key.helper_commit_key_witness,
            &verifier_key.helper_commit_key_slack,
            &current_proof.helper_half_proof,
        );
        match (main, helper) {
            (Ok(_), Ok(_)) => Ok(()),
            _ => Err(SangriaError::IndexOutOfBounds),
        }
    }
}

/// The tables of one execution on one curve.
pub type Trace<F> = (PLONKInstance<F>, PLONKWitness<F>);

/// The tables of one execution on one curve, as values: the instance
/// table and the witness table.
pub type TraceView = (Seq<Seq<nat>>, Seq<Seq<nat>>);

/// The tables of one execution, as values.
pub open spec fn trace_view<F: PrimeField>(trace: Trace<F>) -> TraceView {
    (trace.0@, trace.1@)
}

/// A step circuit that can be run over the cycle: it gives the circuits of
/// the two curves and, for a step, the tables of its execution on each.
///
/// What a method gives is a function of what it is given: each has a name
/// for its result, and that is all that is asked of it.
pub trait CycleStepCircuit<MainField: PrimeField, HelperField: PrimeField>: StepCircuit<
    MainField,
> + Sized {
    /// The circuit of a step, over the main field.
    spec fn main_circuit_spec(&self) -> CircuitView;

    /// The circuit that accompanies a step, over the helper field.
    spec fn helper_circuit_spec(&self) -> CircuitView;

    /// The tables that stand for the origin state: those of the main curve,
    /// then those of the helper curve.
    spec fn origin_traces_spec(&self, origin_state: &Self::State) -> (TraceView, TraceView);

    /// The state that one step leads to.
    spec fn next_state_spec(
        &self,
        origin_state: &Self::State,
        current_state: &Self::State,
        witness: &Self::Witness,
    ) -> Self::State;

    /// The tables of one step: those of the main curve, then those of the
    /// helper curve.
    spec fn step_traces_spec(
        &self,
        origin_state: &Self::State,
        current_state: &Self::State,
        witness: &Self::Witness,
    ) -> (TraceView, TraceView);

    /// Whether two states are the same state. The origin state is the state
    /// before any step: by it, step zero is recognised.
    spec fn same_state_spec(&self, a: &Self::State, b: &Self::State) -> bool;

    /// The circuit of a step, over the main field.
    fn main_circuit(&self) -> (circuit: PLONKCircuit<MainField>)
        ensures
            circuit@ == self.main_circuit_spec(),
    ;

    /// The circuit that accompanies a step, over the helper field.
    fn helper_circuit(&self) -> (circuit: PLONKCircuit<HelperField>)
        ensures
            circuit@ == self.helper_circuit_spec(),
    ;

    /// The tables that stand for the origin state on the two curves.
    fn origin_traces(&self, origin_state: &Self::State) -> (traces: (
        Trace<MainField>,
        Trace<HelperField>,
    ))
        ensures
            (trace_view(traces.0), trace_view(traces.1)) == self.origin_traces_spec(origin_state),
    ;

    /// Runs one step from the current state: the next state, and the tables
    /// of the step on the two curves.
    fn run(
        &self,
        origin_state: &Self::State,
        current_state: &Self::State,
        witness: &Self::Witness,
    ) -> (step: (Self::State, Trace<MainField>, Trace<HelperField>))
        ensures
            step.0 == self.next_state_spec(origin_state, current_state, witness),
            (trace_view(step.1), trace_view(step.2)) == self.step_traces_spec(
                origin_state,
                current_state,
                witness,
            ),
    ;

    /// Whether two states are the same state.
    fn same_state(&self, a: &Self::State, b: &Self::State) -> (same: bool)
        ensures
            same == self.same_state_spec(a, b),
    ;

    /// A copy of the step circuit.
    fn duplicate(&self) -> (copy: Self)
        ensures
            copy == *self,
    ;
}

/// Whether the pair is the trivial pair of the tables under the
/// parameters, for the blinding factors that its witness holds, one for
/// each witness column.
pub open spec fn pair_relaxed<F: PrimeField, Comm: FoldingCommitmentConfig<F>>(
    pp: ParametersView<F, Comm>,
    tables: TraceView,
    instance: InstanceView<F, Comm>,
    witness: RelaxedWitnessView,
) -> bool {
    &&& instance == relaxed_instance_spec::<F, Comm>(
        pp,
        tables.0,
        tables.1,
        witness.commitment_hidings,
    )
    &&& witness == relaxed_witness_spec(tables.0, tables.1, witness.commitment_hidings)
    &&& witness.commitment_hidings.len() == tables.1.len()
}

/// As many blinding factors as asked for, drawn with the generator.
pub fn draw_blindings<F: PrimeField>(count: usize, rng: &mut StdRng) -> (blindings: Vec<F>)
    ensures
        blindings.len() == count,
{
    let mut blindings: Vec<F> = Vec::new();
    let mut i: usize = 0;
    while i < count
        invariant
            i <= count,
            blindings.len() == i,
        decreases count - i,
    {
        blindings.push(F::random(rng));
        i += 1;
    }
    blindings
}

/// The trivial pair of an execution, with blinding factors drawn with the
/// generator: what `relax` gives for the blinding factors that the witness
/// holds. It fails with `IndexOutOfBounds` exactly when the tables do not
/// fit the keys.
pub fn relax_with_fresh_blindings<F: PrimeField, Comm: FoldingCommitmentConfig<F>>(
    pp: &crate::folding_scheme::PublicParameters<F, Comm>,
    plonk_instance: PLONKInstance<F>,
    plonk_witness: PLONKWitness<F>,
    rng: &mut StdRng,
) -> (res: Result<(RelaxedPLONKInstance<F, Comm>, RelaxedPLONKWitness<F>), SangriaError>)
    ensures
        res is Ok ==> pair_relaxed::<F, Comm>(
            pp@,
            (plonk_instance@, plonk_witness@),
            res->Ok_0.0@,
            res->Ok_0.1@,
        ) && pair_trivial(res->Ok_0.0@, res->Ok_0.1@),
        res is Ok <==> tables_relaxable::<F, Comm>(pp@, plonk_instance@, plonk_witness@),
        res is Err ==> res == Err::<
            (RelaxedPLONKInstance<F, Comm>, RelaxedPLONKWitness<F>),
            SangriaError,
        >(SangriaError::IndexOutOfBounds),
{
    let hidings = draw_blindings::<F>(plonk_witness.num_columns(), rng);
    proof {
        assert(values(hidings@).len() == hidings.len());
    }
    relax::<F, Comm>(pp, plonk_instance, plonk_witness, hidings)
}

impl<
    MainField: PrimeField,
    HelperField: PrimeField,
    Config: SangriaIVCConfig<MainField, HelperField>,
    SC: StepCircuit<MainField>,
> SangriaNoCompression<MainField, HelperField, Config, SC> {
    /// Checks a proof against the tables of the origin: accepts exactly the
    /// proofs that are valid on both curves and of which, where they are
    /// said to stand at the origin, the base case holds on both; and rejects
    /// every other with `IndexOutOfBounds`.
    pub fn check_from_origin(
        verifier_key: &VerifierKey<MainField, HelperField, Config, SC>,
        current_proof: &IVCProof<MainField, HelperField, Config>,
        main_origin: &Trace<MainField>,
        helper_origin: &Trace<HelperField>,
        at_origin: bool,
    ) -> (res: Result<(), SangriaError>)
        ensures
            res is Ok <==> proof_valid::<MainField, HelperField, Config, SC>(
                *verifier_key,
                *current_proof,
            ) && (at_origin ==> proof_starts_at::<MainField, HelperField, Config, SC>(
                *verifier_key,
                *current_proof,
                trace_view(*main_origin),
                trace_view(*helper_origin),
            )),
            res is Err ==> res == Err::<(), SangriaError>(SangriaError::IndexOutOfBounds),
    {
        let valid = Self::check(verifier_key, current_proof);
        let main = half_cycle_checks_origin::<
            MainField,
            MainSchemes<MainField, HelperField, Config>,
        >(
            &current_proof.main_half_proof,
            &verifier_key.main_commit_key_slack,
            &main_origin.0,
            &main_origin.1,
        );
        let helper = half_cycle_checks_origin::<
            HelperField,
            HelperSchemes<MainField, HelperField, Config>,
        >(
            &current_proof.helper_half_proof,
            &verifier_key.helper_commit_key_slack,
            &helper_origin.0,
            &helper_origin.1,
        );
        match valid {
            Ok(_) => {
                if !at_origin || (main && helper) {
                    Ok(())
                } else {
                    Err(SangriaError::IndexOutOfBounds)
                }
            },
            Err(e) => Err(e),
        }
    }
}

/// The base case on both curves: the running pairs of the proof are the
/// trivial pairs of the tables of the origin.
pub open spec fn proof_starts_at<
    MainField: PrimeField,
    HelperField: PrimeField,
    Config: SangriaIVCConfig<MainField, HelperField>,
    SC: StepCircuit<MainField>,
>(
    verifier_key: VerifierKey<MainField, HelperField, Config, SC>,
    proof: IVCProof<MainField, HelperField, Config>,
    main_origin: TraceView,
    helper_origin: TraceView,
) -> bool {
    &&& half_cycle_starts_at::<MainField, MainSchemes<MainField, HelperField, Config>>(
        <MainSlackScheme<MainField, HelperField, Config>>::key_view(
            &verifier_key.main_commit_key_slack,
        ),
        proof.main_half_proof,
        main_origin.0,
        main_origin.1,
    )
    &&& half_cycle_starts_at::<HelperField, HelperSchemes<MainField, HelperField, Config>>(
        <HelperSlackScheme<MainField, HelperField, Config>>::key_view(
            &verifier_key.helper_commit_key_slack,
        ),
        proof.helper_half_proof,
        helper_origin.0,
        helper_origin.1,
    )
}

/// Whether the tables of an execution fit the keys of the prover key on
/// both curves.
pub open spec fn traces_relaxable<
    MainField: PrimeField,
    HelperField: PrimeField,
    Config: SangriaIVCConfig<MainField, HelperField>,
    SC: StepCircuit<MainField>,
>(
    prover_key: ProverKey<MainField, HelperField, Config, SC>,
    main: TraceView,
    helper: TraceView,
) -> bool {
    &&& tables_relaxable::<MainField, MainSchemes<MainField, HelperField, Config>>(
        prover_key.main_nifs_pk@.public_parameters,
        main.0,
        main.1,
    )
    &&& tables_relaxable::<HelperField, HelperSchemes<MainField, HelperField, Config>>(
        prover_key.helper_nifs_pk@.public_parameters,
        helper.0,
        helper.1,
    )
}

/// Whether the latest pairs of the proof are the trivial pairs of the
/// given tables, on both curves.
pub open spec fn latest_pairs_relaxed<
    MainField: PrimeField,
    HelperField: PrimeField,
    Config: SangriaIVCConfig<MainField, HelperField>,
    SC: StepCircuit<MainField>,
>(
    prover_key: ProverKey<MainField, HelperField, Config, SC>,
    main: TraceView,
    helper: TraceView,
    proof: IVCProof<MainField, HelperField, Config>,
) -> bool {
    &&& pair_relaxed::<MainField, MainSchemes<MainField, HelperField, Config>>(
        prover_key.main_nifs_pk@.public_parameters,
        main,
        proof.main_half_proof.latest_step_instance@,
        proof.main_half_proof.latest_step_witness@,
    )
    &&& pair_relaxed::<HelperField, HelperSchemes<MainField, HelperField, Config>>(
        prover_key.helper_nifs_pk@.public_parameters,
        helper,
        proof.helper_half_proof.latest_step_instance@,
        proof.helper_half_proof.latest_step_witness@,
    )
}

/// Whether the running pairs of the proof are the trivial pairs of the
/// given tables, on both curves.
pub open spec fn running_pairs_relaxed<
    MainField: PrimeField,
    HelperField: PrimeField,
    Config: SangriaIVCConfig<MainField, HelperField>,
    SC: StepCircuit<MainField>,
>(
    prover_key: ProverKey<MainField, HelperField, Config, SC>,
    main: TraceView,
    helper: TraceView,
    proof: IVCProof<MainField, HelperField, Config>,
) -> bool {
    &&& pair_relaxed::<MainField, MainSchemes<MainField, HelperField, Config>>(
        prover_key.main_nifs_pk@.public_parameters,
        main,
        proof.main_half_proof.running_instance@,
        proof.main_half_proof.running_witness@,
    )
    &&& pair_relaxed::<HelperField, HelperSchemes<MainField, HelperField, Config>>(
        prover_key.helper_nifs_pk@.public_parameters,
        helper,
        proof.helper_half_proof.running_instance@,
        proof.helper_half_proof.running_witness@,
    )
}

/// Whether the folding provers of both curves accept the two pairs that
/// the proof holds on their curve.
pub open spec fn proof_foldable<
    MainField: PrimeField,
    HelperField: PrimeField,
    Config: SangriaIVCConfig<MainField, HelperField>,
    SC: StepCircuit<MainField>,
>(
    prover_key: ProverKey<MainField, HelperField, Config, SC>,
    proof: IVCProof<MainField, HelperField, Config>,
) -> bool {
    &&& prover_accepts::<MainField, MainSchemes<MainField, HelperField, Config>>(
        prover_key.main_nifs_pk@,
        proof.main_half_proof.running_instance@,
        proof.main_half_proof.running_witness@,
        proof.main_half_proof.latest_step_instance@,
        proof.main_half_proof.latest_step_witness@,
    )
    &&& prover_accepts::<HelperField, HelperSchemes<MainField, HelperField, Config>>(
        prover_key.helper_nifs_pk@,
        proof.helper_half_proof.running_instance@,
        proof.helper_half_proof.running_witness@,
        proof.helper_half_proof.latest_step_instance@,
        proof.helper_half_proof.latest_step_witness@,
    )
}

impl<
    MainField: PrimeField,
    HelperField: PrimeField,
    Config: SangriaIVCConfig<MainField, HelperField>,
    SC: StepCircuit<MainField>,
> SangriaNoCompression<MainField, HelperField, Config, SC> {
    /// The proof of the first step, from the tables of the origin and the
    /// tables of the step: on each curve the running pair is the trivial
    /// pair of the origin and the latest pair the trivial pair of the step,
    /// under blinding factors drawn with the generator. It fails with
    /// `IndexOutOfBounds` exactly when the tables of the origin or those of
    /// the step do not fit the keys.
    pub fn first_step_from_traces(
        prover_key: &ProverKey<MainField, HelperField, Config, SC>,
        main_origin: Trace<MainField>,
        helper_origin: Trace<HelperField>,
        main_step: Trace<MainField>,
        helper_step: Trace<HelperField>,
        rng: &mut StdRng,
    ) -> (res: Result<IVCProof<MainField, HelperField, Config>, SangriaError>)
        ensures
            res is Ok <==> traces_relaxable(
                *prover_key,
                trace_view(main_origin),
                trace_view(helper_origin),
            ) && traces_relaxable(*prover_key, trace_view(main_step), trace_view(helper_step)),
            res is Ok ==> running_pairs_relaxed(
                *prover_key,
                trace_view(main_origin),
                trace_view(helper_origin),
                res->Ok_0,
            ) && latest_pairs_relaxed(
                *prover_key,
                trace_view(main_step),
                trace_view(helper_step),
                res->Ok_0,
            ),
            res is Err ==> res == Err::<IVCProof<MainField, HelperField, Config>, SangriaError>(
                SangriaError::IndexOutOfBounds,
            ),
    {
        let (main_instance, main_witness) = match relax_with_fresh_blindings::<
            MainField,
            MainSchemes<MainField, HelperField, Config>,
        >(&prover_key.main_nifs_pk.public_parameters, main_step.0, main_step.1, rng) {
            Ok(pair) => pair,
            Err(e) => {
                return Err(e);
            },
        };
        let (helper_instance, helper_witness) = match relax_with_fresh_blindings::<
            HelperField,
            HelperSchemes<MainField, HelperField, Config>,
        >(&prover_key.helper_nifs_pk.public_parameters, helper_step.0, helper_step.1, rng) {
            Ok(pair) => pair,
            Err(e) => {
                return Err(e);
            },
        };
        let (main_running_instance, main_running_witness) = match relax_with_fresh_blindings::<
            MainField,
            MainSchemes<MainField, HelperField, Config>,
        >(&prover_key.main_nifs_pk.public_parameters, main_origin.0, main_origin.1, rng) {
            Ok(pair) => pair,
            Err(e) => {
                return Err(e);
            },
        };
        let (helper_running_instance, helper_running_witness) =
            match relax_with_fresh_blindings::<
            HelperField,
            HelperSchemes<MainField, HelperField, Config>,
        >(&prover_key.helper_nifs_pk.public_parameters, helper_origin.0, helper_origin.1, rng) {
            Ok(pair) => pair,
            Err(e) => {
                return Err(e);
            },
        };
        Ok(
            IVCProof {
                main_half_proof: HalfCycleProof {
                    latest_step_instance: main_instance,
                    latest_step_witness: main_witness,
                    running_instance: main_running_instance,
                    running_witness: main_running_witness,
                },
                helper_half_proof: HalfCycleProof {
                    latest_step_instance: helper_instance,
                    latest_step_witness: helper_witness,
                    running_instance: helper_running_instance,
                    running_witness: helper_running_witness,
                },
            },
        )
    }

    /// The proof of the next step, from the current proof and the tables of
    /// the step: on each curve the pairs of the current proof are folded
    /// into the running pair, and the latest pair is the trivial pair of
    /// the step under blinding factors drawn with the generator. It fails
    /// with `IndexOutOfBounds` exactly when the tables of the step do not
    /// fit the keys or the folding prover of one of the two curves does not
    /// accept the pairs of the current proof.
    pub fn next_step_from_traces(
        prover_key: &ProverKey<MainField, HelperField, Config, SC>,
        current_proof: &IVCProof<MainField, HelperField, Config>,
        main_step: Trace<MainField>,
        helper_step: Trace<HelperField>,
        rng: &mut StdRng,
    ) -> (res: Result<IVCProof<MainField, HelperField, Config>, SangriaError>)
        ensures
            res is Ok <==> traces_relaxable(
                *prover_key,
                trace_view(main_step),
                trace_view(helper_step),
            ) && proof_foldable(*prover_key, *current_proof),
            res is Ok ==> latest_pairs_relaxed(
                *prover_key,
                trace_view(main_step),
                trace_view(helper_step),
                res->Ok_0,
            ) && proof_folded::<MainField, HelperField, Config, SC>(
                *prover_key,
                *current_proof,
                res->Ok_0,
            ),
            res is Err ==> res == Err::<IVCProof<MainField, HelperField, Config>, SangriaError>(
                SangriaError::IndexOutOfBounds,
            ),
    {
        let (main_instance, main_witness) = match relax_with_fresh_blindings::<
            MainField,
            MainSchemes<MainField, HelperField, Config>,
        >(&prover_key.main_nifs_pk.public_parameters, main_step.0, main_step.1, rng) {
            Ok(pair) => pair,
            Err(e) => {
                return Err(e);
            },
        };
        let (helper_instance, helper_witness) = match relax_with_fresh_blindings::<
            HelperField,
            HelperSchemes<MainField, HelperField, Config>,
        >(&prover_key.helper_nifs_pk.public_parameters, helper_step.0, helper_step.1, rng) {
            Ok(pair) => pair,
            Err(e) => {
                return Err(e);
            },
        };
        Self::fold_step(
            prover_key,
            current_proof,
            main_instance,
            main_witness,
            helper_instance,
            helper_witness,
            rng,
        )
    }
}

/// Whether a proof is valid under the verifier key on both curves.
pub open spec fn proof_valid<
    MainField: PrimeField,
    HelperField: PrimeField,
    Config: SangriaIVCConfig<MainField, HelperField>,
    SC: StepCircuit<MainField>,
>(
    verifier_key: VerifierKey<MainField, HelperField, Config, SC>,
    proof: IVCProof<MainField, HelperField, Config>,
) -> bool {
    &&& half_cycle_valid::<MainField, MainSchemes<MainField, HelperField, Config>>(
        verifier_key.main_circuit@,
        <MainWitnessScheme<MainField, HelperField, Config>>::key_view(
            &verifier_key.main_commit_key_witness,
        ),
        <MainSlackScheme<MainField, HelperField, Config>>::key_view(
            &verifier_key.main_commit_key_slack,
        ),
        proof.main_half_proof,
    )
    &&& half_cycle_valid::<HelperField, HelperSchemes<MainField, HelperField, Config>>(
        verifier_key.helper_circuit@,
        <HelperWitnessScheme<MainField, HelperField, Config>>::key_view(
            &verifier_key.helper_commit_key_witness,
        ),
        <HelperSlackScheme<MainField, HelperField, Config>>::key_view(
            &verifier_key.helper_commit_key_slack,
        ),
        proof.helper_half_proof,
    )
}

/// Whether the running pairs of `next` are the folds of the pairs that
/// `current` holds, on both curves, for some messages and blindings of the
/// prover.
pub open spec fn proof_folded<
    MainField: PrimeField,
    HelperField: PrimeField,
    Config: SangriaIVCConfig<MainField, HelperField>,
    SC: StepCircuit<MainField>,
>(
    prover_key: ProverKey<MainField, HelperField, Config, SC>,
    current: IVCProof<MainField, HelperField, Config>,
    next: IVCProof<MainField, HelperField, Config>,
) -> bool {
    &&& exists|
        message: SlackCommitment<MainField, MainSchemes<MainField, HelperField, Config>>,
        blinding: nat,
    | #[trigger]
        half_cycle_advanced::<
            MainField,
            MainSchemes<MainField, HelperField, Config>,
            MainSponge<MainField, HelperField, Config>,
        >(
            prover_key.main_nifs_pk@,
            current.main_half_proof,
            next.main_half_proof.latest_step_instance@,
            next.main_half_proof.latest_step_witness@,
            next.main_half_proof,
            message,
            blinding,
        )
    &&& exists|
        message: SlackCommitment<HelperField, HelperSchemes<MainField, HelperField, Config>>,
        blinding: nat,
    | #[trigger]
        half_cycle_advanced::<
            HelperField,
            HelperSchemes<MainField, HelperField, Config>,
            HelperSponge<MainField, HelperField, Config>,
        >(
            prover_key.helper_nifs_pk@,
            current.helper_half_proof,
            next.helper_half_proof.latest_step_instance@,
            next.helper_half_proof.latest_step_witness@,
            next.helper_half_proof,
            message,
            blinding,
        )
}

impl<
    MainField: PrimeField,
    HelperField: PrimeField,
    Config: SangriaIVCConfig<MainField, HelperField>,
    SC: CycleStepCircuit<MainField, HelperField>,
> IVC<MainField, SC> for SangriaNoCompression<MainField, HelperField, Config, SC> {
    type SetupInfo = (SetupInfo<MainField>, SetupInfo<HelperField>);

    type PublicParameters = PublicParameters<MainField, HelperField, Config>;

    type ProverKey = ProverKey<MainField, HelperField, Config, SC>;

    type VerifierKey = VerifierKey<MainField, HelperField, Config, SC>;

    type Proof = IVCProof<MainField, HelperField, Config>;

    /// Derives the public parameters of both curves. It fails with
    /// `IndexOutOfBounds` exactly when the sizes of one of the two do not
    /// fit a machine word.
    fn setup(info: &(SetupInfo<MainField>, SetupInfo<HelperField>), rng: &mut StdRng) -> (res:
        Result<PublicParameters<MainField, HelperField, Config>, SangriaError>)
        ensures
            res is Ok <==> sizes_fit(
                info.0.number_of_gates as nat,
                info.0.number_of_public_inputs as nat,
            ) && sizes_fit(
                info.1.number_of_gates as nat,
                info.1.number_of_public_inputs as nat,
            ),
            res is Ok ==> setup_outcome::<MainField, MainSchemes<MainField, HelperField, Config>>(
                info.0,
                res->Ok_0.main_nifs_pp@,
            ) && setup_outcome::<HelperField, HelperSchemes<MainField, HelperField, Config>>(
                info.1,
                res->Ok_0.helper_nifs_pp@,
            ),
            res is Err ==> res == Err::<
                PublicParameters<MainField, HelperField, Config>,
                SangriaError,
            >(SangriaError::IndexOutOfBounds),
    {
        Self::setup_curves(&info.0, &info.1, rng)
    }

    /// Derives the keys for the two circuits that the step circuit gives,
    /// and gives each key its copy of the step circuit. It fails with
    /// `IndexOutOfBounds` exactly when the folding scheme of one of the two
    /// curves does not accept its circuit.
    fn encode(
        public_parameters: &PublicParameters<MainField, HelperField, Config>,
        step_circuit: &SC,
        rng: &mut StdRng,
    ) -> (res: Result<
        (
            ProverKey<MainField, HelperField, Config, SC>,
            VerifierKey<MainField, HelperField, Config, SC>,
        ),
        SangriaError,
    >)
        ensures
            res is Ok <==> circuit_encodable::<
                MainField,
                MainSchemes<MainField, HelperField, Config>,
            >(public_parameters.main_nifs_pp@, step_circuit.main_circuit_spec())
                && circuit_encodable::<HelperField, HelperSchemes<MainField, HelperField, Config>>(
                public_parameters.helper_nifs_pp@,
                step_circuit.helper_circuit_spec(),
            ),
            res is Ok ==> {
                let (pk, vk) = res->Ok_0;
                &&& keys_encoded::<MainField, HelperField, Config, SC>(*public_parameters, pk, vk)
                &&& vk.main_circuit@ == step_circuit.main_circuit_spec()
                &&& vk.helper_circuit@ == step_circuit.helper_circuit_spec()
                &&& pk.step_circuit == *step_circuit
                &&& vk.step_circuit == *step_circuit
            },
            res is Err ==> res == Err::<
                (
                    ProverKey<MainField, HelperField, Config, SC>,
                    VerifierKey<MainField, HelperField, Config, SC>,
                ),
                SangriaError,
            >(SangriaError::IndexOutOfBounds),
    {
        let main_circuit = step_circuit.main_circuit();
        let helper_circuit = step_circuit.helper_circuit();
        Self::encode_circuits(
            public_parameters,
            &main_circuit,
            &helper_circuit,
            step_circuit.duplicate(),
            step_circuit.duplicate(),
            rng,
        )
    }

    /// Proves one step: runs the step circuit from the current state, and
    /// makes the next proof of the tables that it gives. The next state is
    /// the state that the step leads to. On each curve the latest pair of
    /// the next proof is the trivial pair of the tables of the step; where
    /// there was a proof, its pairs are folded into the running pair; where
    /// there was none, the running pair is the trivial pair of the tables of
    /// the origin state. It fails with `IndexOutOfBounds` exactly when
    /// tables that are to be relaxed do not fit the keys, or the folding
    /// prover of one of the two curves does not accept the pairs of the
    /// current proof.
    fn prove_step(
        prover_key: &ProverKey<MainField, HelperField, Config, SC>,
        origin_state: &SC::State,
        current_state: SC::State,
        current_proof: Option<IVCProof<MainField, HelperField, Config>>,
        current_witness: &SC::Witness,
        rng: &mut StdRng,
    ) -> (res: Result<(SC::State, IVCProof<MainField, HelperField, Config>), SangriaError>)
        ensures
            res is Ok <==> step_accepted::<MainField, HelperField, Config, SC>(
                *prover_key,
                origin_state,
                &current_state,
                current_proof,
                current_witness,
            ),
            res is Ok ==> step_proved::<MainField, HelperField, Config, SC>(
                *prover_key,
                origin_state,
                &current_state,
                current_proof,
                current_witness,
                res->Ok_0.0,
                res->Ok_0.1,
            ),
            res is Err ==> res == Err::<
                (SC::State, IVCProof<MainField, HelperField, Config>),
                SangriaError,
            >(SangriaError::IndexOutOfBounds),
    {
        let (next_state, main_step, helper_step) = prover_key.step_circuit.run(
            origin_state,
            &current_state,
            current_witness,
        );
        let next_proof = match current_proof {
            Some(current) => Self::next_step_from_traces(
                prover_key,
                &current,
                main_step,
                helper_step,
                rng,
            ),
            None => {
                let (main_origin, helper_origin) = prover_key.step_circuit.origin_traces(
                    origin_state,
                );
                Self::first_step_from_traces(
                    prover_key,
                    main_origin,
                    helper_origin,
                    main_step,
                    helper_step,
                    rng,
                )
            },
        };
        match next_proof {
            Ok(proof) => Ok((next_state, proof)),
            Err(e) => Err(e),
        }
    }

    /// Verifies the proof of the steps from the origin state to the current
    /// state. Step zero is recognised by the state: it is where the current
    /// state is the origin state. With a proof, it accepts exactly where the
    /// proof is valid on both curves and, at step zero, its running pairs
    /// are the trivial pairs of the tables of the origin state. Without a
    /// proof, it accepts exactly at step zero. What it does not accept it
    /// rejects with `IndexOutOfBounds`.
    fn verify(
        verifier_key: &VerifierKey<MainField, HelperField, Config, SC>,
        origin_state: &SC::State,
        current_state: SC::State,
        current_proof: Option<IVCProof<MainField, HelperField, Config>>,
    ) -> (res: Result<(), SangriaError>)
        ensures
            res is Ok <==> proof_accepted::<MainField, HelperField, Config, SC>(
                *verifier_key,
                origin_state,
                &current_state,
                current_proof,
            ),
            res is Err ==> res == Err::<(), SangriaError>(SangriaError::IndexOutOfBounds),
    {
        let at_origin = verifier_key.step_circuit.same_state(origin_state, &current_state);
        match current_proof {
            Some(proof) => {
                let (main_origin, helper_origin) = verifier_key.step_circuit.origin_traces(
                    origin_state,
                );
                Self::check_from_origin(
                    verifier_key,
                    &proof,
                    &main_origin,
                    &helper_origin,
                    at_origin,
                )
            },
            None => {
                if at_origin {
                    Ok(())
                } else {
                    Err(SangriaError::IndexOutOfBounds)
                }
            },
        }
    }
}

/// Whether a step can be proved from the current state: the tables of the
/// step fit the keys on both curves, and, where there is a proof, the
/// folding provers accept its pairs, and where there is none, the tables of
/// the origin state fit the keys.
pub open spec fn step_accepted<
    MainField: PrimeField,
    HelperField: PrimeField,
    Config: SangriaIVCConfig<MainField, HelperField>,
    SC: CycleStepCircuit<MainField, HelperField>,
>(
    prover_key: ProverKey<MainField, HelperField, Config, SC>,
    origin_state: &SC::State,
    current_state: &SC::State,
    current_proof: Option<IVCProof<MainField, HelperField, Config>>,
    witness: &SC::Witness,
) -> bool {
    let step = prover_key.step_circuit.step_traces_spec(origin_state, current_state, witness);
    let origin = prover_key.step_circuit.origin_traces_spec(origin_state);
    &&& traces_relaxable(prover_key, step.0, step.1)
    &&& match current_proof {
        Some(current) => proof_foldable(prover_key, current),
        None => traces_relaxable(prover_key, origin.0, origin.1),
    }
}

/// Whether state and proof are what one step from the current state
/// gives: the state that the step leads to; on each curve the trivial pair
/// of the tables of the step as the latest pair; and as the running pair
/// the fold of the pairs of the current proof, or, where there is none, the
/// trivial pair of the tables of the origin state.
pub open spec fn step_proved<
    MainField: PrimeField,
    HelperField: PrimeField,
    Config: SangriaIVCConfig<MainField, HelperField>,
    SC: CycleStepCircuit<MainField, HelperField>,
>(
    prover_key: ProverKey<MainField, HelperField, Config, SC>,
    origin_state: &SC::State,
    current_state: &SC::State,
    current_proof: Option<IVCProof<MainField, HelperField, Config>>,
    witness: &SC::Witness,
    next_state: SC::State,
    next_proof: IVCProof<MainField, HelperField, Config>,
) -> bool {
    let step = prover_key.step_circuit.step_traces_spec(origin_state, current_state, witness);
    let origin = prover_key.step_circuit.origin_traces_spec(origin_state);
    &&& next_state == prover_key.step_circuit.next_state_spec(
        origin_state,
        current_state,
        witness,
    )
    &&& latest_pairs_relaxed(prover_key, step.0, step.1, next_proof)
    &&& match current_proof {
        Some(current) => proof_folded::<MainField, HelperField, Config, SC>(
            prover_key,
            current,
            next_proof,
        ),
        None => running_pairs_relaxed(prover_key, origin.0, origin.1, next_proof),
    }
}

/// Whether `verify` accepts. Step zero is recognised by the state: where
/// the current state is the origin state, nothing has been folded in yet.
/// With a proof, the proof is valid on both curves, and at step zero its
/// running pairs are the trivial pairs of the tables of the origin state.
/// Without a proof, the current state is the origin state.
pub open spec fn proof_accepted<
    MainField: PrimeField,
    HelperField: PrimeField,
    Config: SangriaIVCConfig<MainField, HelperField>,
    SC: CycleStepCircuit<MainField, HelperField>,
>(
    verifier_key: VerifierKey<MainField, HelperField, Config, SC>,
    origin_state: &SC::State,
    current_state: &SC::State,
    current_proof: Option<IVCProof<MainField, HelperField, Config>>,
) -> bool {
    let origin = verifier_key.step_circuit.origin_traces_spec(origin_state);
    let at_origin = verifier_key.step_circuit.same_state_spec(origin_state, current_state);
    match current_proof {
        Some(proof) => {
            &&& proof_valid::<MainField, HelperField, Config, SC>(verifier_key, proof)
            &&& at_origin ==> proof_starts_at::<MainField, HelperField, Config, SC>(
                verifier_key,
                proof,
                origin.0,
                origin.1,
            )
        },
        None => at_origin,
    }
}

/// Whether the keys are those that `encode_circuits` derives from the
/// parameters for the circuits that the verifier key holds: the keys of the
/// folding scheme on both curves, and the commitment keys.
pub open spec fn keys_encoded<
    MainField: PrimeField,
    HelperField: PrimeField,
    Config: SangriaIVCConfig<MainField, HelperField>,
    SC: StepCircuit<MainField>,
>(
    public_parameters: PublicParameters<MainField, HelperField, Config>,
    pk: ProverKey<MainField, HelperField, Config, SC>,
    vk: VerifierKey<MainField, HelperField, Config, SC>,
) -> bool {
    &&& pk.main_nifs_pk@ == encode_spec::<
        MainField,
        MainSchemes<MainField, HelperField, Config>,
        MainSponge<MainField, HelperField, Config>,
    >(
        public_parameters.main_nifs_pp@,
        vk.main_circuit@,
        pk.main_nifs_pk@.selector_c_commit_randomness,
    )
    &&& pk.helper_nifs_pk@ == encode_spec::<
        HelperField,
        HelperSchemes<MainField, HelperField, Config>,
        HelperSponge<MainField, HelperField, Config>,
    >(
        public_parameters.helper_nifs_pp@,
        vk.helper_circuit@,
        pk.helper_nifs_pk@.selector_c_commit_randomness,
    )
    &&& vk.main_nifs_vk@ == pk.main_nifs_pk@.verifier_key
    &&& vk.helper_nifs_vk@ == pk.helper_nifs_pk@.verifier_key
    &&& <MainWitnessScheme<MainField, HelperField, Config>>::key_view(
        &vk.main_commit_key_witness,
    ) == public_parameters.main_nifs_pp@.commit_key_witness
    &&& <HelperWitnessScheme<MainField, HelperField, Config>>::key_view(
        &vk.helper_commit_key_witness,
    ) == public_parameters.helper_nifs_pp@.commit_key_witness
    &&& <MainSlackScheme<MainField, HelperField, Config>>::key_view(&vk.main_commit_key_slack)
        == public_parameters.main_nifs_pp@.commit_key_selectors_and_slack
    &&& <HelperSlackScheme<MainField, HelperField, Config>>::key_view(
        &vk.helper_commit_key_slack,
    ) == public_parameters.helper_nifs_pp@.commit_key_selectors_and_slack
}

} // verus!
