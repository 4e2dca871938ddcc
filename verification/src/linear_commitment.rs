//! A homomorphic commitment in the additive group of the field itself:
//! the commitment to `x` under blinding `r` is `<g, x> + h r`. It has the
//! algebra that folding needs and none of the hardness that hiding and
//! binding need: it is the scheme to run the folding algebra with, not one
//! to deploy.

use ark_std::rand::rngs::StdRng;
use crate::errors::SangriaError;
use crate::field::{copy_elements, reduced, values, PrimeField};
use crate::folding_scheme::FoldingCommitmentConfig;
use crate::modular::{
    congruent, fold_mod, fold_vector, lemma_add_step, lemma_congruent_add, lemma_congruent_mod,
    lemma_congruent_mul, lemma_congruent_reduced, lemma_mul_mod_distributes, lemma_mul_step,
};
use crate::vector_commitment::HomomorphicCommitmentScheme;
use std::marker::PhantomData;
use vstd::arithmetic::div_mod::lemma_small_mod;
use vstd::prelude::*;

verus! {

/// The scheme that commits to a vector by its inner product with the key.
pub struct LinearCommitmentScheme<F: PrimeField>(pub PhantomData<F>);

/// The key of the scheme: one generator for each entry of a vector, and one
/// for the blinding.
pub struct LinearCommitmentKey<F: PrimeField> {
    generators: Vec<F>,
    blinding_generator: F,
}

/// What a key holds, as values.
pub struct LinearKeyView {
    /// The generators `g`.
    pub generators: Seq<nat>,
    /// The generator `h` of the blinding.
    pub blinding_generator: nat,
}

impl<F: PrimeField> LinearCommitmentKey<F> {
    /// A key with the given generators.
    pub fn new(generators: Vec<F>, blinding_generator: F) -> (key: Self)
        ensures
            LinearCommitmentScheme::<F>::key_view(&key) == (LinearKeyView {
                generators: values(generators@),
                blinding_generator: blinding_generator.value(),
            }),
    {
        LinearCommitmentKey { generators, blinding_generator }
    }
}

/// The inner product of the first `k` entries of `g` and `x`, over the
/// integers.
pub open spec fn inner_product(g: Seq<nat>, x: Seq<nat>, k: nat) -> nat
    decreases k,
{
    if k == 0 {
        0
    } else {
        inner_product(g, x, (k - 1) as nat) + g[k - 1] * x[k - 1]
    }
}

/// The inner product is linear in its second argument, modulo `p`.
proof fn lemma_inner_product_folds(g: Seq<nat>, x1: Seq<nat>, x2: Seq<nat>, c: nat, p: nat, k: nat)
    requires
        p > 0,
        k <= x1.len(),
    ensures
        congruent(
            inner_product(g, fold_vector(x1, x2, c, p), k),
            inner_product(g, x1, k) + c * inner_product(g, x2, k),
            p,
        ),
    decreases k,
{
    if k == 0 {
        assert(c * 0 == 0);
    } else {
        let j = (k - 1) as nat;
        lemma_inner_product_folds(g, x1, x2, c, p, j);
        let folded = fold_vector(x1, x2, c, p);
        let (a1, a2) = (inner_product(g, x1, j), inner_product(g, x2, j));
        let (gj, y1, y2) = (g[j as int], x1[j as int], x2[j as int]);
        assert(folded[j as int] == fold_mod(y1, y2, c, p));
        lemma_congruent_mod(y1 + c * y2, p);
        lemma_congruent_mul(gj, gj, folded[j as int], y1 + c * y2, p);
        lemma_congruent_add(
            inner_product(g, folded, j),
            a1 + c * a2,
            gj * folded[j as int],
            gj * (y1 + c * y2),
            p,
        );
        assert(a1 + c * a2 + gj * (y1 + c * y2) == (a1 + gj * y1) + c * (a2 + gj * y2))
            by (nonlinear_arith);
        assert(inner_product(g, folded, k) == inner_product(g, folded, j) + gj * folded[j as int]);
        assert(inner_product(g, x1, k) == a1 + gj * y1);
        assert(inner_product(g, x2, k) == a2 + gj * y2);
    }
}

impl<F: PrimeField> HomomorphicCommitmentScheme<F> for LinearCommitmentScheme<F> {
    type CommitKey = LinearCommitmentKey<F>;

    type Commitment = F;

    type Group = nat;

    type KeyView = LinearKeyView;

    closed spec fn key_view(key: &LinearCommitmentKey<F>) -> LinearKeyView {
        LinearKeyView {
            generators: values(key.generators@),
            blinding_generator: key.blinding_generator.value(),
        }
    }

    open spec fn key_length(key: LinearKeyView) -> nat {
        key.generators.len()
    }

    open spec fn group_value(c: &F) -> nat {
        c.value()
    }

    open spec fn commit_spec(key: LinearKeyView, x: Seq<nat>, r: nat) -> nat {
        (inner_product(key.generators, x, key.generators.len()) + key.blinding_generator * r)
            % F::modulus()
    }

    open spec fn add_spec(a: nat, b: nat) -> nat {
        (a + b) % F::modulus()
    }

    open spec fn scale_spec(a: nat, c: nat) -> nat {
        (c * a) % F::modulus()
    }

    open spec fn zero_spec() -> nat {
        0
    }

    open spec fn in_group(a: nat) -> bool {
        a < F::modulus()
    }

    open spec fn encoding_spec(a: nat) -> Seq<nat> {
        seq![a]
    }

    proof fn lemma_held_in_group(c: &F) {
        c.lemma_canonical();
    }

    proof fn lemma_add_zero(a: nat) {
        lemma_small_mod(a, F::modulus());
    }

    proof fn lemma_scale_one(a: nat) {
        lemma_small_mod(a, F::modulus());
    }

    proof fn lemma_scale_zero(a: nat) {
        let x: F = arbitrary();
        x.lemma_canonical();
        assert(0 * a == 0);
        lemma_small_mod(0, F::modulus());
    }

    proof fn lemma_add_commutative(a: nat, b: nat) {
    }

    proof fn lemma_scale_distributes(a: nat, c1: nat, c2: nat) {
        let x: F = arbitrary();
        x.lemma_canonical();
        lemma_mul_mod_distributes(c1, c2, a, F::modulus());
    }

    proof fn lemma_commit_homomorphic(
        key: LinearKeyView,
        x1: Seq<nat>,
        r1: nat,
        x2: Seq<nat>,
        r2: nat,
        c: nat,
    ) {
        let x: F = arbitrary();
        x.lemma_canonical();
        let p = F::modulus();
        let g = key.generators;
        let h = key.blinding_generator;
        let n = g.len();
        let (s1, s2) = (inner_product(g, x1, n), inner_product(g, x2, n));
        lemma_inner_product_folds(g, x1, x2, c, p, n);
        // the blinding: h (r1 + c r2) is h r1 + c (h r2)
        lemma_congruent_mod(r1 + c * r2, p);
        lemma_congruent_mul(h, h, (r1 + c * r2) % p, r1 + c * r2, p);
        lemma_congruent_add(
            inner_product(g, fold_vector(x1, x2, c, p), n),
            s1 + c * s2,
            h * ((r1 + c * r2) % p),
            h * (r1 + c * r2),
            p,
        );
        let (hi, r1i, r2i, ci, s1i, s2i) = (
            h as int,
            r1 as int,
            r2 as int,
            c as int,
            s1 as int,
            s2 as int,
        );
        assert(s1i + ci * s2i + hi * (r1i + ci * r2i) == (s1i + hi * r1i) + ci * (s2i + hi * r2i))
            by (nonlinear_arith);
        // the right-hand side, reduced step by step
        lemma_congruent_mod(s1 + h * r1, p);
        lemma_congruent_mod(s2 + h * r2, p);
        lemma_congruent_mul(c, c, (s2 + h * r2) % p, s2 + h * r2, p);
        lemma_congruent_mod(c * ((s2 + h * r2) % p), p);
        lemma_congruent_add(
            (s1 + h * r1) % p,
            s1 + h * r1,
            (c * ((s2 + h * r2) % p)) % p,
            c * (s2 + h * r2),
            p,
        );
    }

    proof fn lemma_encoding_injective(a: nat, b: nat, e: Seq<nat>) {
        assert(seq![a][0] == e[0]);
        assert(seq![b][0] == e[0]);
    }

    fn setup(public_randomness: &mut StdRng, len: usize) -> (key: LinearCommitmentKey<F>) {
        let mut generators: Vec<F> = Vec::new();
        let mut i: usize = 0;
        while i < len
            invariant
                i <= len,
                generators.len() == i,
            decreases len - i,
        {
            generators.push(F::random(public_randomness));
            i += 1;
        }
        let blinding_generator = F::random(public_randomness);
        proof {
            assert(values(generators@).len() == len);
        }
        LinearCommitmentKey { generators, blinding_generator }
    }

    fn clone_key(key: &LinearCommitmentKey<F>) -> (copy: LinearCommitmentKey<F>) {
        LinearCommitmentKey {
            generators: copy_elements(&key.generators),
            blinding_generator: key.blinding_generator,
        }
    }

    fn commit(commit_key: &LinearCommitmentKey<F>, x: &Vec<F>, r: F) -> (res: Result<
        F,
        SangriaError,
    >) {
        proof {
            assert(values(commit_key.generators@).len() == commit_key.generators.len());
        }
        if x.len() != commit_key.generators.len() {
            return Err(SangriaError::IndexOutOfBounds);
        }
        let ghost g = values(commit_key.generators@);
        let ghost xs = values(x@);
        let mut acc = F::from_u64(0);
        proof {
            r.lemma_canonical();
            lemma_small_mod(0, F::modulus());
        }
        let mut i: usize = 0;
        while i < x.len()
            invariant
                i <= x.len(),
                x.len() == commit_key.generators.len(),
                g == values(commit_key.generators@),
                xs == values(x@),
                F::modulus() >= 2,
                congruent(acc.value(), inner_product(g, xs, i as nat), F::modulus()),
            decreases x.len() - i,
        {
            let term = commit_key.generators[i].mul(&x[i]);
            let next = acc.add(&term);
            proof {
                let p = F::modulus();
                lemma_mul_step(
                    term.value(),
                    g[i as int],
                    xs[i as int],
                    g[i as int],
                    xs[i as int],
                    p,
                );
                lemma_add_step(
                    next.value(),
                    acc.value(),
                    term.value(),
                    inner_product(g, xs, i as nat),
                    g[i as int] * xs[i as int],
                    p,
                );
            }
            acc = next;
            i += 1;
        }
        let blinded = commit_key.blinding_generator.mul(&r);
        let commitment = acc.add(&blinded);
        proof {
            let p = F::modulus();
            let h = commit_key.blinding_generator.value();
            commitment.lemma_canonical();
            lemma_mul_step(blinded.value(), h, r.value(), h, r.value(), p);
            lemma_add_step(
                commitment.value(),
                acc.value(),
                blinded.value(),
                inner_product(g, xs, g.len()),
                h * r.value(),
                p,
            );
            lemma_congruent_reduced(
                commitment.value(),
                inner_product(g, xs, g.len()) + h * r.value(),
                p,
            );
        }
        Ok(commitment)
    }

    fn zero_commitment() -> (zero: F) {
        let zero = F::from_u64(0);
        proof {
            zero.lemma_canonical();
            lemma_small_mod(0, F::modulus());
        }
        zero
    }

    fn add_commitments(a: &F, b: &F) -> (sum: F) {
        a.add(b)
    }

    fn scale_commitment(a: &F, c: &F) -> (scaled: F) {
        c.mul(a)
    }

    fn same_commitment(a: &F, b: &F) -> (same: bool) {
        a.equals(b)
    }

    fn commitment_to_field_elements(a: &F) -> (encoding: Vec<F>) {
        let mut encoding: Vec<F> = Vec::new();
        encoding.push(*a);
        assert(values(encoding@) =~= seq![a.value()]);
        encoding
    }
}

/// The instantiation of the folding scheme that commits to witness
/// columns, selectors and slack alike with the linear scheme.
pub struct LinearCommitmentConfig<F: PrimeField>(pub PhantomData<F>);

impl<F: PrimeField> FoldingCommitmentConfig<F> for LinearCommitmentConfig<F> {
    type CommitmentSlack = LinearCommitmentScheme<F>;

    type CommitmentWitness = LinearCommitmentScheme<F>;
}

} // verus!
