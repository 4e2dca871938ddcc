//! What folding guarantees, stated over the views of instances and
//! witnesses and proved from the definitions.

use crate::field::{lemma_values_reduced, matrix_values, reduced, PrimeField};
use crate::folding_scheme::{
    challenge_spec, challenge_transcript, fold_instance_views, fold_slack_vector,
    fold_witness_views, pair_trivial, prover_message_spec, prover_witness_spec, tables_relaxable,
    verifier_spec, zeros, FoldingCommitmentConfig, ParametersView, ProvingView, SlackCommitment,
    SlackGroup, SlackKeyView, VerifierKeyView, WitnessGroup, WitnessKeyView,
};
use crate::ivc::{
    half_cycle_advanced, half_cycle_valid, keys_encoded, pair_relaxed, pair_valid, proof_accepted,
    proof_valid, step_accepted, step_proved, CycleStepCircuit, HalfCycleProof, HelperSchemes,
    HelperSponge, IVCProof, MainSchemes, MainSponge, SangriaIVCConfig, TraceView,
};
use crate::modular::{
    add_mod, add_vector, fold_matrix, fold_mod, fold_vector, lemma_congruent_add,
    lemma_congruent_mod, lemma_congruent_mul, lemma_fold_entry, lemma_fold_is_add_scale,
    lemma_mul_mod_distributes, mul_mod, same_shape, scale_vector,
};
use crate::relation::{
    copy_constraints_hold, cross_term, cross_term_at, fold_slack_mod, fold_wires, gate_value,
    gates_hold, lemma_gate_folds, selectors_at, slack_commitment_opens, table_reduced,
    tables_shaped, trace_cells, trace_column, trace_length, wires_at, witness_commitments_open,
};
use crate::relaxed_plonk::{
    add_instances, commitments_encoding, instance_encoding, instance_well_formed,
    instances_compatible, scale_instance, CircuitView, InstanceView, RelaxedInstanceView,
    RelaxedWitnessView,
};
use crate::transcript::{
    bytes_encoding, columns_countable, count_mod, lemma_bytes_encoding_injective,
    lemma_matrix_encoding_injective, lemma_prefix_split, matrix_encoding,
    FieldBasedCryptographicSponge,
};
use crate::vector_commitment::HomomorphicCommitmentScheme;
use vstd::arithmetic::div_mod::{lemma_mod_bound, lemma_mod_equivalence, lemma_small_mod};
use vstd::prelude::*;

verus! {

/// Every field has at least two elements.
pub proof fn lemma_modulus<F: PrimeField>()
    ensures
        F::modulus() >= 2,
{
    let x: F = arbitrary();
    x.lemma_canonical();
}

/// A column of the folded trace is the fold of the columns of the two
/// traces.
proof fn lemma_folded_trace_column(
    x1: Seq<Seq<nat>>,
    w1: Seq<Seq<nat>>,
    x2: Seq<Seq<nat>>,
    w2: Seq<Seq<nat>>,
    r: nat,
    p: nat,
    k: int,
)
    requires
        tables_shaped(x1, w1),
        same_shape(x1, x2),
        same_shape(w1, w2),
        0 <= k < 3,
    ensures
        trace_column(fold_matrix(x1, x2, r, p), fold_matrix(w1, w2, r, p), k) == fold_vector(
            trace_column(x1, w1, k),
            trace_column(x2, w2, k),
            r,
            p,
        ),
        trace_column(x1, w1, k).len() == trace_length(x1, w1),
        trace_column(x2, w2, k).len() == trace_length(x1, w1),
{
    assert(x1[k].len() == x1[0].len());
    assert(w1[k].len() == w1[0].len());
    assert(x1[k].len() == x2[k].len());
    assert(w1[k].len() == w2[k].len());
    assert(trace_column(fold_matrix(x1, x2, r, p), fold_matrix(w1, w2, r, p), k) =~= fold_vector(
        trace_column(x1, w1, k),
        trace_column(x2, w2, k),
        r,
        p,
    ));
}

/// Folding keeps the shape of the tables.
proof fn lemma_folded_tables_shaped(
    x1: Seq<Seq<nat>>,
    w1: Seq<Seq<nat>>,
    x2: Seq<Seq<nat>>,
    w2: Seq<Seq<nat>>,
    r: nat,
    p: nat,
)
    requires
        tables_shaped(x1, w1),
        same_shape(x1, x2),
        same_shape(w1, w2),
    ensures
        tables_shaped(fold_matrix(x1, x2, r, p), fold_matrix(w1, w2, r, p)),
        trace_length(fold_matrix(x1, x2, r, p), fold_matrix(w1, w2, r, p)) == trace_length(
            x1,
            w1,
        ),
{
    let fx = fold_matrix(x1, x2, r, p);
    let fw = fold_matrix(w1, w2, r, p);
    assert forall|k: int| 0 <= k < fx.len() implies (#[trigger] fx[k]).len() == fx[0].len() by {
        assert(x1[k].len() == x1[0].len());
    }
    assert forall|k: int| 0 <= k < fw.len() implies (#[trigger] fw[k]).len() == fw[0].len() by {
        assert(w1[k].len() == w1[0].len());
    }
}

/// Completeness of folding, for the gates: if two instance-witness pairs
/// of one shape satisfy the relaxed gate relation of a circuit, then for
/// every challenge `r` and every prover message `t`, the folded pair
/// satisfies it too, where the witnesses are folded with the cross term of
/// the two pairs.
pub proof fn lemma_folding_complete<F: PrimeField, Comm: FoldingCommitmentConfig<F>>(
    circuit: CircuitView,
    x1: InstanceView<F, Comm>,
    w1: RelaxedWitnessView,
    x2: InstanceView<F, Comm>,
    w2: RelaxedWitnessView,
    t: SlackGroup<F, Comm>,
    r: nat,
)
    requires
        gates_hold(circuit, x1, w1, F::modulus()),
        gates_hold(circuit, x2, w2, F::modulus()),
        same_shape(x1.plonk_instance, x2.plonk_instance),
        same_shape(w1.plonk_witness, w2.plonk_witness),
    ensures
        gates_hold(
            circuit,
            fold_instance_views::<F, Comm>(x1, x2, t, r),
            fold_witness_views(
                w1,
                w2,
                cross_term(circuit, x1, w1, x2, w2, F::modulus()),
                r,
                F::modulus(),
            ),
            F::modulus(),
        ),
{
    lemma_modulus::<F>();
    let p = F::modulus();
    let cross = cross_term(circuit, x1, w1, x2, w2, p);
    let fx = fold_instance_views::<F, Comm>(x1, x2, t, r);
    let fw = fold_witness_views(w1, w2, cross, r, p);
    let n = trace_length(x1.plonk_instance, w1.plonk_witness);
    lemma_folded_tables_shaped(
        x1.plonk_instance,
        w1.plonk_witness,
        x2.plonk_instance,
        w2.plonk_witness,
        r,
        p,
    );
    lemma_folded_trace_column(
        x1.plonk_instance,
        w1.plonk_witness,
        x2.plonk_instance,
        w2.plonk_witness,
        r,
        p,
        0,
    );
    lemma_folded_trace_column(
        x1.plonk_instance,
        w1.plonk_witness,
        x2.plonk_instance,
        w2.plonk_witness,
        r,
        p,
        1,
    );
    lemma_folded_trace_column(
        x1.plonk_instance,
        w1.plonk_witness,
        x2.plonk_instance,
        w2.plonk_witness,
        r,
        p,
        2,
    );
    assert(x1.plonk_instance[0].len() == x2.plonk_instance[0].len());
    assert(w1.plonk_witness[0].len() == w2.plonk_witness[0].len());
    assert(trace_length(x2.plonk_instance, w2.plonk_witness) == n);
    assert forall|j: int| 0 <= j < n implies gate_value(
        selectors_at(circuit.selectors, j),
        wires_at(fx.scaling_factor, fx.plonk_instance, fw.plonk_witness, j),
        p,
    ) == #[trigger] fw.slack_vector[j] by {
        let q = selectors_at(circuit.selectors, j);
        let v1 = wires_at(x1.scaling_factor, x1.plonk_instance, w1.plonk_witness, j);
        let v2 = wires_at(x2.scaling_factor, x2.plonk_instance, w2.plonk_witness, j);
        lemma_gate_folds(q, v1, v2, r, p);
        assert(wires_at(fx.scaling_factor, fx.plonk_instance, fw.plonk_witness, j) == fold_wires(
            v1,
            v2,
            r,
            p,
        ));
        assert(gate_value(q, v1, p) == w1.slack_vector[j]);
        assert(gate_value(q, v2, p) == w2.slack_vector[j]);
        assert(cross[j] == cross_term_at(circuit.selectors, x1, w1, x2, w2, p, j));
    }
}

/// Whether adding `a` on the left of two numbers makes them congruent
/// exactly when they are congruent: cancellation modulo `p`.
proof fn lemma_cancel_add(a: nat, x: nat, y: nat, p: nat)
    requires
        p > 0,
        (a + x) % p == (a + y) % p,
    ensures
        x % p == y % p,
{
    lemma_mod_equivalence((a + x) as int, (a + y) as int, p as int);
    lemma_mod_equivalence(x as int, y as int, p as int);
}

/// Multiplication by an invertible number can be undone modulo `p`.
proof fn lemma_cancel_mul(r: nat, s: nat, x: nat, y: nat, p: nat)
    requires
        p > 1,
        (r * s) % p == 1,
        (r * x) % p == (r * y) % p,
    ensures
        x % p == y % p,
{
    // s r x = (r s) x is congruent to x, and likewise for y
    lemma_congruent_mul(s, s, r * x, r * y, p);
    assert(s * (r * x) == (r * s) * x) by (nonlinear_arith);
    assert(s * (r * y) == (r * s) * y) by (nonlinear_arith);
    lemma_small_mod(1, p);
    lemma_congruent_mul(r * s, 1, x, x, p);
    lemma_congruent_mul(r * s, 1, y, y, p);
    assert(1 * x == x);
    assert(1 * y == y);
}

/// A cross term other than the honest one breaks the fold: if two pairs
/// satisfy the relaxed gate relation, the challenge `r` has an inverse in
/// the field, and the vector `t` differs from the cross term of the two
/// pairs at row `j`, then the pair folded with `t` violates its gate
/// equation at row `j`.
pub proof fn lemma_wrong_cross_term_breaks_fold<F: PrimeField, Comm: FoldingCommitmentConfig<F>>(
    circuit: CircuitView,
    x1: InstanceView<F, Comm>,
    w1: RelaxedWitnessView,
    x2: InstanceView<F, Comm>,
    w2: RelaxedWitnessView,
    message: SlackGroup<F, Comm>,
    t: Seq<nat>,
    r: nat,
    inverse: nat,
    j: int,
)
    requires
        gates_hold(circuit, x1, w1, F::modulus()),
        gates_hold(circuit, x2, w2, F::modulus()),
        same_shape(x1.plonk_instance, x2.plonk_instance),
        same_shape(w1.plonk_witness, w2.plonk_witness),
        (r * inverse) % F::modulus() == 1,
        0 <= j < trace_length(x1.plonk_instance, w1.plonk_witness),
        t.len() == trace_length(x1.plonk_instance, w1.plonk_witness),
        t[j] < F::modulus(),
        t[j] != cross_term(circuit, x1, w1, x2, w2, F::modulus())[j],
    ensures
        !gates_hold(
            circuit,
            fold_instance_views::<F, Comm>(x1, x2, message, r),
            fold_witness_views(w1, w2, t, r, F::modulus()),
            F::modulus(),
        ),
{
    lemma_modulus::<F>();
    let p = F::modulus();
    let cross = cross_term(circuit, x1, w1, x2, w2, p);
    let honest = fold_witness_views(w1, w2, cross, r, p);
    let forged = fold_witness_views(w1, w2, t, r, p);
    let fx = fold_instance_views::<F, Comm>(x1, x2, message, r);
    lemma_folding_complete::<F, Comm>(circuit, x1, w1, x2, w2, message, r);
    lemma_folded_tables_shaped(
        x1.plonk_instance,
        w1.plonk_witness,
        x2.plonk_instance,
        w2.plonk_witness,
        r,
        p,
    );
    let (e1, e2) = (w1.slack_vector[j], w2.slack_vector[j]);
    assert(honest.slack_vector[j] == fold_slack_mod(e1, cross[j], e2, r, p));
    assert(forged.slack_vector[j] == fold_slack_mod(e1, t[j], e2, r, p));
    assert(forged.plonk_witness == honest.plonk_witness);
    if gates_hold(circuit, fx, forged, p) {
        // both slack entries equal the one gate value
        assert(forged.slack_vector[j] == honest.slack_vector[j]);
        assert(e1 + r * t[j] + r * r * e2 == (e1 + r * r * e2) + r * t[j]);
        assert(e1 + r * cross[j] + r * r * e2 == (e1 + r * r * e2) + r * cross[j]);
        lemma_cancel_add(e1 + r * r * e2, r * t[j], r * cross[j], p);
        lemma_cancel_mul(r, inverse, t[j], cross[j], p);
        lemma_small_mod(t[j], p);
        lemma_small_mod(cross[j], p);
        assert(false);
    }
}

/// The challenge is a function of the transcript: two runs of the
/// transcript over the same constants and the same encodings give the same
/// challenge, whoever runs them.
pub proof fn lemma_challenge_deterministic<
    F: PrimeField,
    Comm: FoldingCommitmentConfig<F>,
    RO: FieldBasedCryptographicSponge<F>,
>(
    vk: VerifierKeyView<SlackGroup<F, Comm>>,
    x1: InstanceView<F, Comm>,
    x2: InstanceView<F, Comm>,
    t: SlackGroup<F, Comm>,
    other_vk: VerifierKeyView<SlackGroup<F, Comm>>,
    other_x1: InstanceView<F, Comm>,
    other_x2: InstanceView<F, Comm>,
    other_t: SlackGroup<F, Comm>,
)
    requires
        vk.poseidon_constants == other_vk.poseidon_constants,
        challenge_transcript::<F, Comm>(vk, x1, x2, t) == challenge_transcript::<F, Comm>(
            other_vk,
            other_x1,
            other_x2,
            other_t,
        ),
    ensures
        challenge_spec::<F, Comm, RO>(vk, x1, x2, t) == challenge_spec::<F, Comm, RO>(
            other_vk,
            other_x1,
            other_x2,
            other_t,
        ),
{
}

/// The prover and the verifier fold to the same instance: the instance
/// that the prover derives from its message is the one that the verifier
/// derives from that message.
pub proof fn lemma_prover_and_verifier_agree<
    F: PrimeField,
    Comm: FoldingCommitmentConfig<F>,
    RO: FieldBasedCryptographicSponge<F>,
>(
    pk: ProvingView<F, Comm>,
    x1: InstanceView<F, Comm>,
    w1: RelaxedWitnessView,
    x2: InstanceView<F, Comm>,
    w2: RelaxedWitnessView,
    blinding: nat,
)
    ensures
        ({
            let message = prover_message_spec::<F, Comm>(pk, x1, w1, x2, w2, blinding);
            let challenge = challenge_spec::<F, Comm, RO>(pk.verifier_key, x1, x2, message);
            &&& verifier_spec::<F, Comm, RO>(pk.verifier_key, x1, x2, message)
                == fold_instance_views::<F, Comm>(x1, x2, message, challenge)
            &&& prover_witness_spec::<F, Comm, RO>(pk, x1, w1, x2, w2, blinding)
                == fold_witness_views(
                w1,
                w2,
                cross_term(pk.circuit, x1, w1, x2, w2, F::modulus()),
                challenge,
                F::modulus(),
            )
        }),
{
}

/// Addition of relaxed instances is commutative: for two instances that
/// can be added, `a + b` and `b + a` are the same instance.
pub proof fn lemma_instance_addition_commutes<F: PrimeField, Comm: FoldingCommitmentConfig<F>>(
    a: InstanceView<F, Comm>,
    b: InstanceView<F, Comm>,
)
    requires
        instances_compatible(a, b),
    ensures
        add_instances::<F, Comm>(a, b) == add_instances::<F, Comm>(b, a),
{
    let p = F::modulus();
    let ab = add_instances::<F, Comm>(a, b);
    let ba = add_instances::<F, Comm>(b, a);
    assert forall|k: int| 0 <= k < ab.plonk_instance.len() implies ab.plonk_instance[k]
        == ba.plonk_instance[k] by {
        assert(a.plonk_instance[k].len() == b.plonk_instance[k].len());
        assert(add_vector(a.plonk_instance[k], b.plonk_instance[k], p) =~= add_vector(
            b.plonk_instance[k],
            a.plonk_instance[k],
            p,
        ));
    }
    assert(ab.plonk_instance =~= ba.plonk_instance);
    Comm::CommitmentSlack::lemma_add_commutative(a.slack_commitment, b.slack_commitment);
    assert forall|i: int| 0 <= i < ab.witness_commitments.len() implies ab.witness_commitments[i]
        == ba.witness_commitments[i] by {
        Comm::CommitmentWitness::lemma_add_commutative(
            a.witness_commitments[i],
            b.witness_commitments[i],
        );
    }
    assert(ab.witness_commitments =~= ba.witness_commitments);
}

/// Scalar multiplication of a relaxed instance distributes over the
/// addition of the field: `a (c1 + c2)` and `a c1 + a c2` are the same
/// instance.
pub proof fn lemma_instance_scaling_distributes<F: PrimeField, Comm: FoldingCommitmentConfig<F>>(
    a: InstanceView<F, Comm>,
    c1: nat,
    c2: nat,
)
    requires
        c1 < F::modulus(),
        c2 < F::modulus(),
    ensures
        scale_instance::<F, Comm>(a, add_mod(c1, c2, F::modulus())) == add_instances::<F, Comm>(
            scale_instance::<F, Comm>(a, c1),
            scale_instance::<F, Comm>(a, c2),
        ),
{
    lemma_modulus::<F>();
    let p = F::modulus();
    let c = add_mod(c1, c2, p);
    let left = scale_instance::<F, Comm>(a, c);
    let s1 = scale_instance::<F, Comm>(a, c1);
    let s2 = scale_instance::<F, Comm>(a, c2);
    let right = add_instances::<F, Comm>(s1, s2);
    assert forall|k: int| 0 <= k < left.plonk_instance.len() implies left.plonk_instance[k]
        == right.plonk_instance[k] by {
        let column = a.plonk_instance[k];
        assert forall|i: int| 0 <= i < column.len() implies scale_vector(column, c, p)[i]
            == add_vector(scale_vector(column, c1, p), scale_vector(column, c2, p), p)[i] by {
            lemma_mul_mod_distributes(c1, c2, column[i], p);
        }
        assert(scale_vector(column, c, p) =~= add_vector(
            scale_vector(column, c1, p),
            scale_vector(column, c2, p),
            p,
        ));
    }
    assert(left.plonk_instance =~= right.plonk_instance);
    lemma_mul_mod_distributes(c1, c2, a.scaling_factor, p);
    Comm::CommitmentSlack::lemma_scale_distributes(a.slack_commitment, c1, c2);
    assert forall|i: int|
        0 <= i < left.witness_commitments.len() implies left.witness_commitments[i]
        == right.witness_commitments[i] by {
        Comm::CommitmentWitness::lemma_scale_distributes(a.witness_commitments[i], c1, c2);
    }
    assert(left.witness_commitments =~= right.witness_commitments);
}

/// Multiplying a relaxed instance by one changes nothing.
pub proof fn lemma_instance_scaling_by_one<F: PrimeField, Comm: FoldingCommitmentConfig<F>>(
    a: InstanceView<F, Comm>,
)
    requires
        instance_well_formed::<F, Comm>(a),
    ensures
        scale_instance::<F, Comm>(a, 1) == a,
{
    let p = F::modulus();
    let scaled = scale_instance::<F, Comm>(a, 1);
    assert forall|k: int| 0 <= k < a.plonk_instance.len() implies scaled.plonk_instance[k]
        == a.plonk_instance[k] by {
        let column = a.plonk_instance[k];
        assert(reduced(column, p));
        assert forall|i: int| 0 <= i < column.len() implies scale_vector(column, 1, p)[i]
            == column[i] by {
            lemma_small_mod(column[i], p);
        }
        assert(scale_vector(column, 1, p) =~= column);
    }
    assert(scaled.plonk_instance =~= a.plonk_instance);
    lemma_small_mod(a.scaling_factor, p);
    Comm::CommitmentSlack::lemma_scale_one(a.slack_commitment);
    assert forall|i: int|
        0 <= i < a.witness_commitments.len() implies scaled.witness_commitments[i]
        == a.witness_commitments[i] by {
        Comm::CommitmentWitness::lemma_scale_one(a.witness_commitments[i]);
    }
    assert(scaled.witness_commitments =~= a.witness_commitments);
}

/// Multiplying a relaxed instance by zero gives the zero instance of its
/// shape: zero public rows, the scaling factor zero, and the identity for
/// every commitment.
pub proof fn lemma_instance_scaling_by_zero<F: PrimeField, Comm: FoldingCommitmentConfig<F>>(
    a: InstanceView<F, Comm>,
)
    ensures
        ({
            let z = scale_instance::<F, Comm>(a, 0);
            &&& same_shape(z.plonk_instance, a.plonk_instance)
            &&& forall|k: int, i: int|
                0 <= k < a.plonk_instance.len() && 0 <= i < a.plonk_instance[k].len()
                    ==> #[trigger] z.plonk_instance[k][i] == 0
            &&& z.scaling_factor == 0
            &&& z.slack_commitment == Comm::CommitmentSlack::zero_spec()
            &&& z.witness_commitments.len() == a.witness_commitments.len()
            &&& forall|i: int|
                0 <= i < a.witness_commitments.len() ==> #[trigger] z.witness_commitments[i]
                    == Comm::CommitmentWitness::zero_spec()
        }),
{
    lemma_modulus::<F>();
    let p = F::modulus();
    let z = scale_instance::<F, Comm>(a, 0);
    lemma_small_mod(0, p);
    assert forall|k: int, i: int|
        0 <= k < a.plonk_instance.len() && 0 <= i < a.plonk_instance[k].len()
        implies #[trigger] z.plonk_instance[k][i] == 0 by {
        assert(0 * a.plonk_instance[k][i] == 0);
    }
    assert(0 * a.scaling_factor == 0);
    Comm::CommitmentSlack::lemma_scale_zero(a.slack_commitment);
    assert forall|i: int|
        0 <= i < a.witness_commitments.len() implies #[trigger] z.witness_commitments[i]
        == Comm::CommitmentWitness::zero_spec() by {
        Comm::CommitmentWitness::lemma_scale_zero(a.witness_commitments[i]);
    }
}

/// A fold is a linear combination with a correction: apart from the slack
/// commitment, the instance folded under `r` is `x1 + x2 r`.
pub proof fn lemma_fold_is_linear_combination<F: PrimeField, Comm: FoldingCommitmentConfig<F>>(
    x1: InstanceView<F, Comm>,
    x2: InstanceView<F, Comm>,
    t: SlackGroup<F, Comm>,
    r: nat,
)
    requires
        instances_compatible(x1, x2),
    ensures
        ({
            let folded = fold_instance_views::<F, Comm>(x1, x2, t, r);
            let combined = add_instances::<F, Comm>(x1, scale_instance::<F, Comm>(x2, r));
            &&& folded.plonk_instance == combined.plonk_instance
            &&& folded.scaling_factor == combined.scaling_factor
            &&& folded.witness_commitments == combined.witness_commitments
        }),
{
    lemma_modulus::<F>();
    let p = F::modulus();
    let folded = fold_instance_views::<F, Comm>(x1, x2, t, r);
    let combined = add_instances::<F, Comm>(x1, scale_instance::<F, Comm>(x2, r));
    assert forall|k: int| 0 <= k < folded.plonk_instance.len() implies folded.plonk_instance[k]
        == combined.plonk_instance[k] by {
        assert(x1.plonk_instance[k].len() == x2.plonk_instance[k].len());
        lemma_fold_is_add_scale(x1.plonk_instance[k], x2.plonk_instance[k], r, p);
    }
    assert(folded.plonk_instance =~= combined.plonk_instance);
    lemma_fold_entry(x1.scaling_factor, x2.scaling_factor, r, p);
    assert(folded.witness_commitments =~= combined.witness_commitments);
}

/// Folded vectors have their entries below the modulus.
proof fn lemma_fold_vector_reduced(l: Seq<nat>, r: Seq<nat>, c: nat, p: nat)
    requires
        p > 0,
    ensures
        reduced(fold_vector(l, r, c, p), p),
{
    assert forall|i: int| 0 <= i < fold_vector(l, r, c, p).len() implies #[trigger] fold_vector(
        l,
        r,
        c,
        p,
    )[i] < p by {
        lemma_mod_bound((l[i] + c * r[i]) as int, p as int);
    }
}

/// Completeness of folding, for the witness commitments: if the witness
/// commitments of two pairs of one shape open to their witnesses, then
/// those of the folded pair open to the folded witness.
pub proof fn lemma_witness_commitments_fold<F: PrimeField, Comm: FoldingCommitmentConfig<F>>(
    key: WitnessKeyView<F, Comm>,
    x1: InstanceView<F, Comm>,
    w1: RelaxedWitnessView,
    x2: InstanceView<F, Comm>,
    w2: RelaxedWitnessView,
    t: SlackGroup<F, Comm>,
    cross: Seq<nat>,
    r: nat,
)
    requires
        witness_commitments_open::<F, Comm>(key, x1, w1),
        witness_commitments_open::<F, Comm>(key, x2, w2),
        same_shape(w1.plonk_witness, w2.plonk_witness),
        table_reduced(w1.plonk_witness, F::modulus()),
        table_reduced(w2.plonk_witness, F::modulus()),
        reduced(w1.commitment_hidings, F::modulus()),
        reduced(w2.commitment_hidings, F::modulus()),
        r < F::modulus(),
    ensures
        witness_commitments_open::<F, Comm>(
            key,
            fold_instance_views::<F, Comm>(x1, x2, t, r),
            fold_witness_views(w1, w2, cross, r, F::modulus()),
        ),
{
    let p = F::modulus();
    let fx = fold_instance_views::<F, Comm>(x1, x2, t, r);
    let fw = fold_witness_views(w1, w2, cross, r, p);
    let columns = fw.plonk_witness;
    assert forall|i: int| 0 <= i < columns.len() implies (#[trigger] columns[i]).len()
        == Comm::CommitmentWitness::key_length(key) && fx.witness_commitments[i]
        == Comm::CommitmentWitness::commit_spec(key, columns[i], fw.commitment_hidings[i]) by {
        assert(w1.plonk_witness[i].len() == Comm::CommitmentWitness::key_length(key));
        assert(w2.plonk_witness[i].len() == Comm::CommitmentWitness::key_length(key));
        assert(reduced(w1.plonk_witness[i], p));
        assert(reduced(w2.plonk_witness[i], p));
        Comm::CommitmentWitness::lemma_commit_homomorphic(
            key,
            w1.plonk_witness[i],
            w1.commitment_hidings[i],
            w2.plonk_witness[i],
            w2.commitment_hidings[i],
            r,
        );
    }
}

/// Completeness of folding, for the slack commitment: if the slack
/// commitments of two pairs open to their slack vectors under the blindings
/// `rho1` and `rho2`, and the prover's message commits to the cross term
/// under `rho_t`, then the slack commitment of the folded pair opens to the
/// folded slack vector under `rho1 + r rho_t + r^2 rho2`.
pub proof fn lemma_slack_commitment_folds<F: PrimeField, Comm: FoldingCommitmentConfig<F>>(
    key: SlackKeyView<F, Comm>,
    x1: InstanceView<F, Comm>,
    w1: RelaxedWitnessView,
    rho1: nat,
    x2: InstanceView<F, Comm>,
    w2: RelaxedWitnessView,
    rho2: nat,
    cross: Seq<nat>,
    rho_t: nat,
    r: nat,
)
    requires
        slack_commitment_opens::<F, Comm>(key, x1, w1, rho1),
        slack_commitment_opens::<F, Comm>(key, x2, w2, rho2),
        cross.len() == Comm::CommitmentSlack::key_length(key),
        reduced(w1.slack_vector, F::modulus()),
        reduced(w2.slack_vector, F::modulus()),
        reduced(cross, F::modulus()),
        rho1 < F::modulus(),
        rho2 < F::modulus(),
        rho_t < F::modulus(),
        r < F::modulus(),
    ensures
        slack_commitment_opens::<F, Comm>(
            key,
            fold_instance_views::<F, Comm>(
                x1,
                x2,
                Comm::CommitmentSlack::commit_spec(key, cross, rho_t),
                r,
            ),
            fold_witness_views(w1, w2, cross, r, F::modulus()),
            fold_slack_mod(rho1, rho_t, rho2, r, F::modulus()),
        ),
{
    lemma_modulus::<F>();
    let p = F::modulus();
    let (e1, e2) = (w1.slack_vector, w2.slack_vector);
    let rr = mul_mod(r, r, p);
    lemma_mod_bound((r * r) as int, p as int);
    // first the cross term at the first power of the challenge
    let half = fold_vector(e1, cross, r, p);
    let rho_half = (rho1 + r * rho_t) % p;
    lemma_mod_bound((rho1 + r * rho_t) as int, p as int);
    Comm::CommitmentSlack::lemma_commit_homomorphic(key, e1, rho1, cross, rho_t, r);
    lemma_fold_vector_reduced(e1, cross, r, p);
    // then the right slack at the second power
    Comm::CommitmentSlack::lemma_commit_homomorphic(key, half, rho_half, e2, rho2, rr);
    assert forall|i: int| 0 <= i < e1.len() implies fold_vector(half, e2, rr, p)[i]
        == fold_slack_vector(e1, cross, e2, r, p)[i] by {
        lemma_two_step_fold(e1[i], cross[i], e2[i], r, p);
    }
    assert(fold_vector(half, e2, rr, p) =~= fold_slack_vector(e1, cross, e2, r, p));
    lemma_two_step_fold(rho1, rho_t, rho2, r, p);
}

/// Folding in two steps, first `t` at `r` and then `e2` at `r^2`, gives the
/// slack of the fold.
proof fn lemma_two_step_fold(e1: nat, t: nat, e2: nat, r: nat, p: nat)
    requires
        p > 0,
    ensures
        fold_mod(fold_mod(e1, t, r, p), e2, mul_mod(r, r, p), p) == fold_slack_mod(
            e1,
            t,
            e2,
            r,
            p,
        ),
{
    lemma_congruent_mod(e1 + r * t, p);
    lemma_congruent_mod(r * r, p);
    lemma_congruent_mul((r * r) % p, r * r, e2, e2, p);
    lemma_congruent_add((e1 + r * t) % p, e1 + r * t, ((r * r) % p) * e2, r * r * e2, p);
}

/// Completeness of folding, for the copy constraints: if the copy
/// constraints of a circuit hold of two pairs of one shape, then they hold
/// of the pair folded under any challenge.
pub proof fn lemma_copy_constraints_fold<F: PrimeField, Comm: FoldingCommitmentConfig<F>>(
    circuit: CircuitView,
    x1: InstanceView<F, Comm>,
    w1: RelaxedWitnessView,
    x2: InstanceView<F, Comm>,
    w2: RelaxedWitnessView,
    t: SlackGroup<F, Comm>,
    cross: Seq<nat>,
    r: nat,
)
    requires
        copy_constraints_hold(circuit, x1, w1),
        copy_constraints_hold(circuit, x2, w2),
        same_shape(x1.plonk_instance, x2.plonk_instance),
        same_shape(w1.plonk_witness, w2.plonk_witness),
    ensures
        copy_constraints_hold(
            circuit,
            fold_instance_views::<F, Comm>(x1, x2, t, r),
            fold_witness_views(w1, w2, cross, r, F::modulus()),
        ),
{
    let p = F::modulus();
    let (i1, t1) = (x1.plonk_instance, w1.plonk_witness);
    let (i2, t2) = (x2.plonk_instance, w2.plonk_witness);
    lemma_folded_tables_shaped(i1, t1, i2, t2, r, p);
    lemma_folded_trace_column(i1, t1, i2, t2, r, p, 0);
    lemma_folded_trace_column(i1, t1, i2, t2, r, p, 1);
    lemma_folded_trace_column(i1, t1, i2, t2, r, p, 2);
    let cells1 = trace_cells(i1, t1);
    let cells2 = trace_cells(i2, t2);
    let folded = trace_cells(fold_matrix(i1, i2, r, p), fold_matrix(t1, t2, r, p));
    assert(folded =~= fold_vector(cells1, cells2, r, p));
    assert forall|k: int| 0 <= k < folded.len() implies (#[trigger] circuit.copy_constraint[k])
        < folded.len() && folded[k] == folded[circuit.copy_constraint[k] as int] by {
        let other = circuit.copy_constraint[k] as int;
        assert(cells1[k] == cells1[other]);
        assert(cells2[k] == cells2[other]);
    }
}

/// Folding keeps a pair valid: if two pairs of one shape satisfy the
/// relaxed relation of the circuit and their witness commitments open, then
/// so does the pair folded under any challenge of the field, whatever the
/// prover's message.
pub proof fn lemma_fold_preserves_validity<F: PrimeField, Comm: FoldingCommitmentConfig<F>>(
    circuit: CircuitView,
    key: WitnessKeyView<F, Comm>,
    x1: InstanceView<F, Comm>,
    w1: RelaxedWitnessView,
    x2: InstanceView<F, Comm>,
    w2: RelaxedWitnessView,
    t: SlackGroup<F, Comm>,
    r: nat,
)
    requires
        pair_valid::<F, Comm>(circuit, key, x1, w1),
        pair_valid::<F, Comm>(circuit, key, x2, w2),
        same_shape(x1.plonk_instance, x2.plonk_instance),
        same_shape(w1.plonk_witness, w2.plonk_witness),
        table_reduced(w1.plonk_witness, F::modulus()),
        table_reduced(w2.plonk_witness, F::modulus()),
        reduced(w1.commitment_hidings, F::modulus()),
        reduced(w2.commitment_hidings, F::modulus()),
        r < F::modulus(),
    ensures
        pair_valid::<F, Comm>(
            circuit,
            key,
            fold_instance_views::<F, Comm>(x1, x2, t, r),
            fold_witness_views(
                w1,
                w2,
                cross_term(circuit, x1, w1, x2, w2, F::modulus()),
                r,
                F::modulus(),
            ),
        ),
{
    lemma_folding_complete::<F, Comm>(circuit, x1, w1, x2, w2, t, r);
    lemma_copy_constraints_fold::<F, Comm>(
        circuit,
        x1,
        w1,
        x2,
        w2,
        t,
        cross_term(circuit, x1, w1, x2, w2, F::modulus()),
        r,
    );
    lemma_witness_commitments_fold::<F, Comm>(
        key,
        x1,
        w1,
        x2,
        w2,
        t,
        cross_term(circuit, x1, w1, x2, w2, F::modulus()),
        r,
    );
}

/// The values of a table of field elements lie below the modulus.
pub proof fn lemma_matrix_values_reduced<F: PrimeField>(m: Seq<Vec<F>>)
    ensures
        table_reduced(matrix_values(m), F::modulus()),
{
    assert forall|k: int| 0 <= k < matrix_values(m).len() implies reduced(
        #[trigger] matrix_values(m)[k],
        F::modulus(),
    ) by {
        lemma_values_reduced(m[k]@);
    }
}

/// A step keeps the proof on one curve valid: if the current proof is
/// valid, the two pairs that it holds have one shape, and the pair of the
/// new step is valid and trivial with its slack committed under blinding
/// zero, then what one step makes of the current proof is valid again.
pub proof fn lemma_step_keeps_proof_valid<
    F: PrimeField,
    Comm: FoldingCommitmentConfig<F>,
    RO: FieldBasedCryptographicSponge<F>,
>(
    pk: ProvingView<F, Comm>,
    current: HalfCycleProof<F, Comm>,
    step_instance: InstanceView<F, Comm>,
    step_witness: RelaxedWitnessView,
    next: HalfCycleProof<F, Comm>,
    message: SlackCommitment<F, Comm>,
    blinding: nat,
)
    requires
        half_cycle_valid::<F, Comm>(
            pk.circuit,
            pk.public_parameters.commit_key_witness,
            pk.public_parameters.commit_key_selectors_and_slack,
            current,
        ),
        same_shape(
            current.running_instance@.plonk_instance,
            current.latest_step_instance@.plonk_instance,
        ),
        same_shape(
            current.running_witness@.plonk_witness,
            current.latest_step_witness@.plonk_witness,
        ),
        table_reduced(current.running_witness@.plonk_witness, F::modulus()),
        table_reduced(current.latest_step_witness@.plonk_witness, F::modulus()),
        reduced(current.running_witness@.commitment_hidings, F::modulus()),
        reduced(current.latest_step_witness@.commitment_hidings, F::modulus()),
        pair_valid::<F, Comm>(
            pk.circuit,
            pk.public_parameters.commit_key_witness,
            step_instance,
            step_witness,
        ),
        pair_trivial(step_instance, step_witness),
        slack_commitment_opens::<F, Comm>(
            pk.public_parameters.commit_key_selectors_and_slack,
            step_instance,
            step_witness,
            0,
        ),
        half_cycle_advanced::<F, Comm, RO>(
            pk,
            current,
            step_instance,
            step_witness,
            next,
            message,
            blinding,
        ),
    ensures
        half_cycle_valid::<F, Comm>(
            pk.circuit,
            pk.public_parameters.commit_key_witness,
            pk.public_parameters.commit_key_selectors_and_slack,
            next,
        ),
{
    let (x1, w1) = (current.running_instance@, current.running_witness@);
    let (x2, w2) = (current.latest_step_instance@, current.latest_step_witness@);
    let t = Comm::CommitmentSlack::group_value(&message);
    RO::lemma_squeeze_canonical(
        pk.verifier_key.poseidon_constants,
        challenge_transcript::<F, Comm>(pk.verifier_key, x1, x2, t),
    );
    lemma_fold_preserves_validity::<F, Comm>(
        pk.circuit,
        pk.public_parameters.commit_key_witness,
        x1,
        w1,
        x2,
        w2,
        t,
        challenge_spec::<F, Comm, RO>(pk.verifier_key, x1, x2, t),
    );
}

/// Whether the tables of an execution satisfy the circuit as they are:
/// with scaling factor one and no slack, every gate takes the value zero,
/// and the copy constraints hold.
pub open spec fn tables_satisfy(circuit: CircuitView, tables: TraceView, p: nat) -> bool {
    let x = RelaxedInstanceView::<(), ()> {
        plonk_instance: tables.0,
        scaling_factor: 1,
        slack_commitment: (),
        witness_commitments: Seq::empty(),
    };
    let w = RelaxedWitnessView {
        plonk_witness: tables.1,
        slack_vector: zeros(trace_length(tables.0, tables.1)),
        commitment_hidings: Seq::empty(),
    };
    &&& gates_hold(circuit, x, w, p)
    &&& copy_constraints_hold(circuit, x, w)
}

/// The trivial pair of tables that satisfy the circuit is valid: it
/// satisfies the relaxed relation, its commitments open to its witness, and
/// its slack commitment opens to its slack under blinding zero.
pub proof fn lemma_relaxed_pair_valid<F: PrimeField, Comm: FoldingCommitmentConfig<F>>(
    circuit: CircuitView,
    pp: ParametersView<F, Comm>,
    tables: TraceView,
    x: InstanceView<F, Comm>,
    w: RelaxedWitnessView,
)
    requires
        tables_relaxable::<F, Comm>(pp, tables.0, tables.1),
        pair_relaxed::<F, Comm>(pp, tables, x, w),
        tables_satisfy(circuit, tables, F::modulus()),
    ensures
        pair_valid::<F, Comm>(circuit, pp.commit_key_witness, x, w),
        pair_trivial(x, w),
        slack_commitment_opens::<F, Comm>(pp.commit_key_selectors_and_slack, x, w, 0),
{
    let p = F::modulus();
    let n = trace_length(tables.0, tables.1);
    let bare_x = RelaxedInstanceView::<(), ()> {
        plonk_instance: tables.0,
        scaling_factor: 1,
        slack_commitment: (),
        witness_commitments: Seq::empty(),
    };
    let bare_w = RelaxedWitnessView {
        plonk_witness: tables.1,
        slack_vector: zeros(n),
        commitment_hidings: Seq::empty(),
    };
    assert(gates_hold(circuit, bare_x, bare_w, p));
    assert(copy_constraints_hold(circuit, bare_x, bare_w));
    assert(w.slack_vector == zeros(n));
    assert forall|j: int| 0 <= j < n implies gate_value(
        selectors_at(circuit.selectors, j),
        wires_at(x.scaling_factor, x.plonk_instance, w.plonk_witness, j),
        p,
    ) == #[trigger] w.slack_vector[j] by {
        assert(gate_value(
            selectors_at(circuit.selectors, j),
            wires_at(bare_x.scaling_factor, bare_x.plonk_instance, bare_w.plonk_witness, j),
            p,
        ) == bare_w.slack_vector[j]);
    }
    assert(gates_hold(circuit, x, w, p));
    assert(copy_constraints_hold(circuit, x, w));
    assert(witness_commitments_open::<F, Comm>(pp.commit_key_witness, x, w));
}

/// `verify` accepts what `prove_step` returns, for steps whose tables
/// satisfy their circuits: if the keys come from `encode` and hold one step
/// circuit, the tables of the step satisfy the circuits, and either there
/// was a valid proof and the step does not lead back to the origin state,
/// or there was none and the tables of the origin state satisfy the
/// circuits too, then the state and the proof of the step are accepted.
pub proof fn lemma_verify_accepts_proved_step<
    MainField: PrimeField,
    HelperField: PrimeField,
    Config: SangriaIVCConfig<MainField, HelperField>,
    SC: CycleStepCircuit<MainField, HelperField>,
>(
    public_parameters: crate::ivc::PublicParameters<MainField, HelperField, Config>,
    prover_key: crate::ivc::ProverKey<MainField, HelperField, Config, SC>,
    verifier_key: crate::ivc::VerifierKey<MainField, HelperField, Config, SC>,
    origin_state: &SC::State,
    current_state: &SC::State,
    current_proof: Option<IVCProof<MainField, HelperField, Config>>,
    witness: &SC::Witness,
    next_state: SC::State,
    next_proof: IVCProof<MainField, HelperField, Config>,
)
    requires
        keys_encoded::<MainField, HelperField, Config, SC>(
            public_parameters,
            prover_key,
            verifier_key,
        ),
        prover_key.step_circuit == verifier_key.step_circuit,
        step_accepted::<MainField, HelperField, Config, SC>(
            prover_key,
            origin_state,
            current_state,
            current_proof,
            witness,
        ),
        step_proved::<MainField, HelperField, Config, SC>(
            prover_key,
            origin_state,
            current_state,
            current_proof,
            witness,
            next_state,
            next_proof,
        ),
        tables_satisfy(
            verifier_key.main_circuit@,
            prover_key.step_circuit.step_traces_spec(origin_state, current_state, witness).0,
            MainField::modulus(),
        ),
        tables_satisfy(
            verifier_key.helper_circuit@,
            prover_key.step_circuit.step_traces_spec(origin_state, current_state, witness).1,
            HelperField::modulus(),
        ),
        match current_proof {
            Some(current) => proof_valid::<MainField, HelperField, Config, SC>(
                verifier_key,
                current,
            ) && !verifier_key.step_circuit.same_state_spec(origin_state, &next_state),
            None => tables_satisfy(
                verifier_key.main_circuit@,
                prover_key.step_circuit.origin_traces_spec(origin_state).0,
                MainField::modulus(),
            ) && tables_satisfy(
                verifier_key.helper_circuit@,
                prover_key.step_circuit.origin_traces_spec(origin_state).1,
                HelperField::modulus(),
            ),
        },
    ensures
        proof_accepted::<MainField, HelperField, Config, SC>(
            verifier_key,
            origin_state,
            &next_state,
            Some(next_proof),
        ),
{
    let step = prover_key.step_circuit.step_traces_spec(origin_state, current_state, witness);
    let origin = prover_key.step_circuit.origin_traces_spec(origin_state);
    let main_pk = prover_key.main_nifs_pk@;
    let helper_pk = prover_key.helper_nifs_pk@;
    let main_next = next_proof.main_half_proof;
    let helper_next = next_proof.helper_half_proof;
    // the latest pairs are the trivial pairs of the step
    lemma_relaxed_pair_valid::<MainField, MainSchemes<MainField, HelperField, Config>>(
        main_pk.circuit,
        main_pk.public_parameters,
        step.0,
        main_next.latest_step_instance@,
        main_next.latest_step_witness@,
    );
    lemma_relaxed_pair_valid::<HelperField, HelperSchemes<MainField, HelperField, Config>>(
        helper_pk.circuit,
        helper_pk.public_parameters,
        step.1,
        helper_next.latest_step_instance@,
        helper_next.latest_step_witness@,
    );
    match current_proof {
        Some(current) => {
            let main_current = current.main_half_proof;
            let helper_current = current.helper_half_proof;
            main_current.running_witness.lemma_reduced();
            main_current.latest_step_witness.lemma_reduced();
            helper_current.running_witness.lemma_reduced();
            helper_current.latest_step_witness.lemma_reduced();
            let (main_message, main_blinding) = choose|
                message: SlackCommitment<MainField, MainSchemes<MainField, HelperField, Config>>,
                blinding: nat,
            | #[trigger]
                half_cycle_advanced::<
                    MainField,
                    MainSchemes<MainField, HelperField, Config>,
                    MainSponge<MainField, HelperField, Config>,
                >(
                    main_pk,
                    main_current,
                    main_next.latest_step_instance@,
                    main_next.latest_step_witness@,
                    main_next,
                    message,
                    blinding,
                );
            lemma_step_keeps_proof_valid::<
                MainField,
                MainSchemes<MainField, HelperField, Config>,
                MainSponge<MainField, HelperField, Config>,
            >(
                main_pk,
                main_current,
                main_next.latest_step_instance@,
                main_next.latest_step_witness@,
                main_next,
                main_message,
                main_blinding,
            );
            let (helper_message, helper_blinding) = choose|
                message: SlackCommitment<
                    HelperField,
                    HelperSchemes<MainField, HelperField, Config>,
                >,
                blinding: nat,
            | #[trigger]
                half_cycle_advanced::<
                    HelperField,
                    HelperSchemes<MainField, HelperField, Config>,
                    HelperSponge<MainField, HelperField, Config>,
                >(
                    helper_pk,
                    helper_current,
                    helper_next.latest_step_instance@,
                    helper_next.latest_step_witness@,
                    helper_next,
                    message,
                    blinding,
                );
            lemma_step_keeps_proof_valid::<
                HelperField,
                HelperSchemes<MainField, HelperField, Config>,
                HelperSponge<MainField, HelperField, Config>,
            >(
                helper_pk,
                helper_current,
                helper_next.latest_step_instance@,
                helper_next.latest_step_witness@,
                helper_next,
                helper_message,
                helper_blinding,
            );
        },
        None => {
            lemma_relaxed_pair_valid::<MainField, MainSchemes<MainField, HelperField, Config>>(
                main_pk.circuit,
                main_pk.public_parameters,
                origin.0,
                main_next.running_instance@,
                main_next.running_witness@,
            );
            lemma_relaxed_pair_valid::<
                HelperField,
                HelperSchemes<MainField, HelperField, Config>,
            >(
                helper_pk.circuit,
                helper_pk.public_parameters,
                origin.1,
                helper_next.running_instance@,
                helper_next.running_witness@,
            );
        },
    }
}

/// Whether a relaxed instance is small enough for its counts to enter a
/// transcript over `F` unreduced: it has fewer columns, rows and witness
/// commitments than the field has elements.
pub open spec fn instance_countable<F: PrimeField, Comm: FoldingCommitmentConfig<F>>(
    x: InstanceView<F, Comm>,
) -> bool {
    &&& x.plonk_instance.len() < F::modulus()
    &&& columns_countable(x.plonk_instance, F::modulus())
    &&& x.witness_commitments.len() < F::modulus()
}

/// The witness commitments of an instance can be read back from where
/// their encoding starts.
proof fn lemma_commitments_encoding_injective<F: PrimeField, Comm: FoldingCommitmentConfig<F>>(
    v1: Seq<WitnessGroup<F, Comm>>,
    v2: Seq<WitnessGroup<F, Comm>>,
    k: nat,
    e: Seq<nat>,
)
    requires
        k <= v1.len(),
        k <= v2.len(),
        commitments_encoding::<F, Comm>(v1, k).is_prefix_of(e),
        commitments_encoding::<F, Comm>(v2, k).is_prefix_of(e),
    ensures
        forall|j: int| 0 <= j < k ==> v1[j] == v2[j],
        commitments_encoding::<F, Comm>(v1, k) == commitments_encoding::<F, Comm>(v2, k),
    decreases k,
{
    if k > 0 {
        let before1 = commitments_encoding::<F, Comm>(v1, (k - 1) as nat);
        let before2 = commitments_encoding::<F, Comm>(v2, (k - 1) as nat);
        let last1 = Comm::CommitmentWitness::encoding_spec(v1[k - 1]);
        let last2 = Comm::CommitmentWitness::encoding_spec(v2[k - 1]);
        lemma_prefix_split(before1, last1, e);
        lemma_prefix_split(before2, last2, e);
        lemma_commitments_encoding_injective::<F, Comm>(v1, v2, (k - 1) as nat, e);
        Comm::CommitmentWitness::lemma_encoding_injective(
            v1[k - 1],
            v2[k - 1],
            e.subrange(before1.len() as int, e.len() as int),
        );
    }
}

/// A relaxed instance can be read back from where its encoding starts: two
/// instances, small enough for their counts, whose encodings start one
/// sequence are the same instance.
pub proof fn lemma_instance_encoding_injective<F: PrimeField, Comm: FoldingCommitmentConfig<F>>(
    x1: InstanceView<F, Comm>,
    x2: InstanceView<F, Comm>,
    e: Seq<nat>,
)
    requires
        instance_countable::<F, Comm>(x1),
        instance_countable::<F, Comm>(x2),
        instance_encoding::<F, Comm>(x1).is_prefix_of(e),
        instance_encoding::<F, Comm>(x2).is_prefix_of(e),
    ensures
        x1 == x2,
{
    let p = F::modulus();
    let (m1, m2) = (matrix_encoding(x1.plonk_instance, p), matrix_encoding(x2.plonk_instance, p));
    let (u1, u2) = (seq![x1.scaling_factor], seq![x2.scaling_factor]);
    let s1 = Comm::CommitmentSlack::encoding_spec(x1.slack_commitment);
    let s2 = Comm::CommitmentSlack::encoding_spec(x2.slack_commitment);
    let n1 = seq![count_mod(x1.witness_commitments.len(), p)];
    let n2 = seq![count_mod(x2.witness_commitments.len(), p)];
    let c1 = commitments_encoding::<F, Comm>(x1.witness_commitments, x1.witness_commitments.len());
    let c2 = commitments_encoding::<F, Comm>(x2.witness_commitments, x2.witness_commitments.len());
    // take the encodings apart, from the end
    lemma_prefix_split(m1 + u1 + s1 + n1, c1, e);
    lemma_prefix_split(m2 + u2 + s2 + n2, c2, e);
    lemma_prefix_split(m1 + u1 + s1, n1, e);
    lemma_prefix_split(m2 + u2 + s2, n2, e);
    lemma_prefix_split(m1 + u1, s1, e);
    lemma_prefix_split(m2 + u2, s2, e);
    lemma_prefix_split(m1, u1, e);
    lemma_prefix_split(m2, u2, e);
    // and read them back, from the start
    lemma_matrix_encoding_injective(x1.plonk_instance, x2.plonk_instance, e, p);
    let after_table = e.subrange(m1.len() as int, e.len() as int);
    assert(u1[0] == after_table[0]);
    assert(u2[0] == after_table[0]);
    assert(u1 =~= u2);
    Comm::CommitmentSlack::lemma_encoding_injective(
        x1.slack_commitment,
        x2.slack_commitment,
        e.subrange((m1 + u1).len() as int, e.len() as int),
    );
    let after_slack = e.subrange((m1 + u1 + s1).len() as int, e.len() as int);
    assert(n1[0] == after_slack[0]);
    assert(n2[0] == after_slack[0]);
    lemma_small_mod(x1.witness_commitments.len(), p);
    lemma_small_mod(x2.witness_commitments.len(), p);
    lemma_commitments_encoding_injective::<F, Comm>(
        x1.witness_commitments,
        x2.witness_commitments,
        x1.witness_commitments.len(),
        e.subrange((m1 + u1 + s1 + n1).len() as int, e.len() as int),
    );
    assert(x1.witness_commitments =~= x2.witness_commitments);
}

/// The transcript of a fold can be read back: over a field with more
/// elements than a byte has values, two transcripts that are the same
/// sequence were written from the same domain separator, the same
/// commitment and seed of the verifier key, the same two instances and the
/// same message, as far as these are small enough for their counts.
pub proof fn lemma_transcript_injective<F: PrimeField, Comm: FoldingCommitmentConfig<F>>(
    vk: VerifierKeyView<SlackGroup<F, Comm>>,
    x1: InstanceView<F, Comm>,
    x2: InstanceView<F, Comm>,
    t: SlackGroup<F, Comm>,
    other_vk: VerifierKeyView<SlackGroup<F, Comm>>,
    other_x1: InstanceView<F, Comm>,
    other_x2: InstanceView<F, Comm>,
    other_t: SlackGroup<F, Comm>,
)
    requires
        F::modulus() > 255,
        vk.domain_separator.len() < F::modulus(),
        other_vk.domain_separator.len() < F::modulus(),
        instance_countable::<F, Comm>(x1),
        instance_countable::<F, Comm>(x2),
        instance_countable::<F, Comm>(other_x1),
        instance_countable::<F, Comm>(other_x2),
        challenge_transcript::<F, Comm>(vk, x1, x2, t) == challenge_transcript::<F, Comm>(
            other_vk,
            other_x1,
            other_x2,
            other_t,
        ),
    ensures
        vk.domain_separator == other_vk.domain_separator,
        vk.selector_c_commitment == other_vk.selector_c_commitment,
        vk.transcript_seed == other_vk.transcript_seed,
        x1 == other_x1,
        x2 == other_x2,
        t == other_t,
{
    let p = F::modulus();
    let e = challenge_transcript::<F, Comm>(vk, x1, x2, t);
    let (d1, d2) = (
        bytes_encoding(vk.domain_separator, p),
        bytes_encoding(other_vk.domain_separator, p),
    );
    let c1 = Comm::CommitmentSlack::encoding_spec(vk.selector_c_commitment);
    let c2 = Comm::CommitmentSlack::encoding_spec(other_vk.selector_c_commitment);
    let (s1, s2) = (seq![vk.transcript_seed], seq![other_vk.transcript_seed]);
    let (a1, a2) = (instance_encoding::<F, Comm>(x1), instance_encoding::<F, Comm>(other_x1));
    let (b1, b2) = (instance_encoding::<F, Comm>(x2), instance_encoding::<F, Comm>(other_x2));
    let t1 = Comm::CommitmentSlack::encoding_spec(t);
    let t2 = Comm::CommitmentSlack::encoding_spec(other_t);
    assert(e == d1 + (c1 + s1) + a1 + b1 + t1);
    assert(e == d2 + (c2 + s2) + a2 + b2 + t2);
    assert(e.is_prefix_of(e)) by {
        assert(e =~= e.subrange(0, e.len() as int));
    }
    // take the transcripts apart, from the end
    lemma_prefix_split(d1 + (c1 + s1) + a1 + b1, t1, e);
    lemma_prefix_split(d2 + (c2 + s2) + a2 + b2, t2, e);
    lemma_prefix_split(d1 + (c1 + s1) + a1, b1, e);
    lemma_prefix_split(d2 + (c2 + s2) + a2, b2, e);
    lemma_prefix_split(d1 + (c1 + s1), a1, e);
    lemma_prefix_split(d2 + (c2 + s2), a2, e);
    lemma_prefix_split(d1, c1 + s1, e);
    lemma_prefix_split(d2, c2 + s2, e);
    // and read them back, from the start
    lemma_bytes_encoding_injective(vk.domain_separator, other_vk.domain_separator, e, p);
    let after_domain = e.subrange(d1.len() as int, e.len() as int);
    lemma_prefix_split(c1, s1, after_domain);
    lemma_prefix_split(c2, s2, after_domain);
    Comm::CommitmentSlack::lemma_encoding_injective(
        vk.selector_c_commitment,
        other_vk.selector_c_commitment,
        after_domain,
    );
    let after_commitment = after_domain.subrange(c1.len() as int, after_domain.len() as int);
    assert(s1[0] == after_commitment[0]);
    assert(s2[0] == after_commitment[0]);
    lemma_instance_encoding_injective::<F, Comm>(
        x1,
        other_x1,
        e.subrange((d1 + (c1 + s1)).len() as int, e.len() as int),
    );
    lemma_instance_encoding_injective::<F, Comm>(
        x2,
        other_x2,
        e.subrange((d1 + (c1 + s1) + a1).len() as int, e.len() as int),
    );
    Comm::CommitmentSlack::lemma_encoding_injective(
        t,
        other_t,
        e.subrange((d1 + (c1 + s1) + a1 + b1).len() as int, e.len() as int),
    );
}

} // verus!
