//! Sangria: a Nova-style non-interactive folding scheme for relaxed PLONK,
//! and incrementally verifiable computation from it over a cycle of two
//! curves, with the algebra of folding stated and proved over the integers
//! modulo the number of elements of the field.
//!
//! - `field`, `modular`: prime fields by their canonical values, and vectors
//!   and tables modulo `p`;
//! - `relaxed_plonk`, `relation`: circuits, instances and witnesses, the
//!   relaxed gate equation, the copy constraints and the cross term;
//! - `vector_commitment`, `linear_commitment`: the homomorphic commitment
//!   that folding consumes, and one scheme that has its algebra;
//! - `transcript`, `folding_scheme`: the Fiat-Shamir transcript, the keys,
//!   the prover and the verifier;
//! - `ivc`: the running proof on each curve and on the cycle;
//! - `laws`: what folding guarantees, proved;
//! - `pasta`, `randomness`, `scalars_n_bases`, `univariate_ipa`: the fields
//!   and curves of the Pasta cycle behind arkworks, sums of products over
//!   them, and the keys of the polynomial commitment.

pub mod errors;
pub mod field;
pub mod folding_scheme;
pub mod ivc;
pub mod laws;
pub mod linear_commitment;
pub mod modular;
pub mod pasta;
pub mod randomness;
pub mod relation;
pub mod relaxed_plonk;
pub mod scalars_n_bases;
pub mod transcript;
pub mod univariate_ipa;
pub mod vector_commitment;

pub use errors::SangriaError;
pub use folding_scheme::PLONKFoldingScheme;
pub use relaxed_plonk::{PLONKCircuit, RelaxedPLONKInstance, RelaxedPLONKWitness};

use ark_std::rand::rngs::StdRng;
use field::PrimeField;
use vstd::prelude::*;

verus! {

/// Interface for a single step of the incremental computation.
pub trait StepCircuit<F: PrimeField> {
    /// The output of a single step of the computation.
    type State;

    /// The non-deterministic input of a step of the computation.
    type Witness;
}

/// Interface for a scheme of incrementally verifiable computation.
pub trait IVC<F: PrimeField, SC: StepCircuit<F>> {
    /// What `setup` is run with.
    type SetupInfo;

    /// Public parameters of the scheme.
    type PublicParameters;

    /// What proving needs.
    type ProverKey;

    /// What verifying needs.
    type VerifierKey;

    /// A proof of all the steps run so far.
    type Proof;

    /// Derives the public parameters.
    fn setup(info: &Self::SetupInfo, rng: &mut StdRng) -> Result<
        Self::PublicParameters,
        SangriaError,
    >;

    /// Derives a prover key and a verifier key for the step circuit.
    fn encode(
        public_parameters: &Self::PublicParameters,
        step_circuit: &SC,
        rng: &mut StdRng,
    ) -> Result<(Self::ProverKey, Self::VerifierKey), SangriaError>;

    /// Proves one step: takes the current state and proof and gives the
    /// next state and proof.
    fn prove_step(
        prover_key: &Self::ProverKey,
        origin_state: &SC::State,
        current_state: SC::State,
        current_proof: Option<Self::Proof>,
        current_witness: &SC::Witness,
        rng: &mut StdRng,
    ) -> Result<(SC::State, Self::Proof), SangriaError>;

    /// Verifies the proof of all the steps that led from the origin state
    /// to the current state.
    fn verify(
        verifier_key: &Self::VerifierKey,
        origin_state: &SC::State,
        current_state: SC::State,
        current_proof: Option<Self::Proof>,
    ) -> Result<(), SangriaError>;
}

/// A marker for a scheme of incrementally verifiable computation that
/// compresses its proofs.
pub trait IVCWithProofCompression<F: PrimeField, SC: StepCircuit<F>>: IVC<F, SC> {
}

/// Interface for a non-interactive folding scheme.
pub trait NonInteractiveFoldingScheme {
    /// What `setup` is run with.
    type SetupInfo;

    /// Public parameters of the scheme.
    type PublicParameters;

    /// The structure of the relation that is folded.
    type Structure;

    /// What proving needs.
    type ProverKey;

    /// What verifying needs.
    type VerifierKey;

    /// An instance of the relation.
    type Instance;

    /// A witness of the relation.
    type Witness;

    /// The message of the prover.
    type ProverMessage;

    /// Derives the public parameters.
    fn setup(info: &Self::SetupInfo, rng: &mut StdRng) -> Result<
        Self::PublicParameters,
        SangriaError,
    >;

    /// Derives a prover key and a verifier key for a structure.
    fn encode(pp: &Self::PublicParameters, circuit: &Self::Structure, rng: &mut StdRng) -> Result<
        (Self::ProverKey, Self::VerifierKey),
        SangriaError,
    >;

    /// Folds two instance-witness pairs into one and gives the message for
    /// the verifier.
    fn prover(
        prover_key: &Self::ProverKey,
        left_instance: &Self::Instance,
        left_witness: &Self::Witness,
        right_instance: &Self::Instance,
        right_witness: &Self::Witness,
        rng: &mut StdRng,
    ) -> Result<(Self::Instance, Self::Witness, Self::ProverMessage), SangriaError>;

    /// Folds two instances into one, with the message of the prover.
    fn fold_verifier(
        verifier_key: &Self::VerifierKey,
        left_instance: &Self::Instance,
        right_instance: &Self::Instance,
        prover_message: &Self::ProverMessage,
    ) -> Result<Self::Instance, SangriaError>;
}

} // verus!
