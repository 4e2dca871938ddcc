//! The inner-product-argument polynomial commitment, as far as it is this
//! library's own: its keys, the trimming of the reference string, and the
//! evaluation of the polynomials that are opened.

use crate::field::{copy_elements, values, PrimeField};
use crate::modular::{congruent, lemma_add_step, lemma_congruent_reduced, lemma_mul_step};
use crate::pasta::CommitmentGroup;
use std::marker::PhantomData;
use vstd::arithmetic::div_mod::lemma_small_mod;
use vstd::prelude::*;

verus! {

/// Errors of the polynomial commitment.
#[derive(Clone, Copy, Debug, PartialEq, Eq, Structural)]
pub enum PCSError {
    /// The reference string does not support the degree that is asked for.
    InvalidParameters,
}

/// An inner-product-argument polynomial commitment scheme over the curve
/// `E`, without degree bounds and without hiding.
#[derive(Debug)]
pub struct UnivariateIPA<E: CommitmentGroup> {
    phantom: PhantomData<E>,
}

/// The reference string: the generators that commit to coefficients, and
/// two more.
pub struct UniversalParams<G: Copy> {
    /// The key used to commit to polynomials.
    pub comm_key: Vec<G>,
    /// Some group generator.
    pub h: G,
    /// Some group generator used for hiding.
    pub s: G,
}

/// The key of the prover: the reference string cut to a supported degree.
#[derive(Debug, Clone, PartialEq, Eq)]
pub struct ProverParam<G: Copy> {
    /// The key used to commit to polynomials.
    pub comm_key: Vec<G>,
    /// A group generator.
    pub h: G,
    /// A group generator that is to be used to make a commitment hiding.
    pub s: G,
    /// The maximum degree supported by the reference string that this key
    /// was derived from.
    pub max_degree: usize,
}

/// The key of the verifier is the key of the prover.
pub type VerifierParam<G> = ProverParam<G>;

/// An opening proof.
#[derive(Debug, Clone, PartialEq, Eq)]
pub struct Proof<G: Copy, S: Copy> {
    /// The left elements of the rounds of the argument.
    pub l_vec: Vec<G>,
    /// The right elements of the rounds of the argument.
    pub r_vec: Vec<G>,
    /// The committer key of the last round.
    pub final_comm_key: G,
    /// The coefficient of the last round.
    pub c: S,
    /// The commitment to the blinding polynomial.
    pub hiding_comm: Option<G>,
    /// The combined randomness of the commitments that were opened.
    pub rand: Option<S>,
}

/// The least power of two that is no less than `n`.
pub open spec fn ceil_power_of_two(n: nat) -> nat
    decreases n,
{
    if n <= 1 {
        1
    } else {
        2 * ceil_power_of_two((n + 1) / 2)
    }
}

/// The least power of two that is no less than `n`, or nothing where it is
/// no machine word.
pub fn next_power_of_two(n: usize) -> (power: Option<usize>)
    ensures
        power is Some <==> ceil_power_of_two(n as nat) <= usize::MAX,
        power is Some ==> power->Some_0 == ceil_power_of_two(n as nat),
    decreases n,
{
    if n <= 1 {
        return Some(1);
    }
    match next_power_of_two(n / 2 + n % 2) {
        Some(half) => {
            if half > usize::MAX / 2 {
                None
            } else {
                Some(2 * half)
            }
        },
        None => None,
    }
}

/// The degree that `trim` supports when `supported_degree` is asked for:
/// one less than the least power of two above it.
pub open spec fn rounded_degree(supported_degree: nat) -> nat {
    (ceil_power_of_two(supported_degree + 1) - 1) as nat
}

/// The value of the polynomial with the given coefficients at `x`, over the
/// integers: `c[0] + x (c[1] + x (c[2] + ...))`.
pub open spec fn polynomial_value(coefficients: Seq<nat>, x: nat) -> nat
    decreases coefficients.len(),
{
    if coefficients.len() == 0 {
        0
    } else {
        coefficients[0] + x * polynomial_value(coefficients.drop_first(), x)
    }
}

/// The value of the polynomial with the given coefficients at the point, in
/// the field.
pub fn evaluate<F: PrimeField>(coefficients: &Vec<F>, point: &F) -> (value: F)
    ensures
        value.value() == polynomial_value(values(coefficients@), point.value()) % F::modulus(),
{
    let ghost c = values(coefficients@);
    let ghost x = point.value();
    let mut acc = F::from_u64(0);
    let mut i: usize = coefficients.len();
    proof {
        acc.lemma_canonical();
        lemma_small_mod(0, F::modulus());
        assert(c.subrange(i as int, c.len() as int).len() == 0);
    }
    while i > 0
        invariant
            i <= coefficients.len(),
            c == values(coefficients@),
            x == point.value(),
            F::modulus() >= 2,
            congruent(
                acc.value(),
                polynomial_value(c.subrange(i as int, c.len() as int), x),
                F::modulus(),
            ),
        decreases i,
    {
        i -= 1;
        let shifted = point.mul(&acc);
        let next = coefficients[i].add(&shifted);
        proof {
            let p = F::modulus();
            let tail = c.subrange(i + 1, c.len() as int);
            let here = c.subrange(i as int, c.len() as int);
            assert(here.drop_first() =~= tail);
            assert(here[0] == c[i as int]);
            lemma_mul_step(shifted.value(), x, acc.value(), x, polynomial_value(tail, x), p);
            lemma_add_step(
                next.value(),
                c[i as int],
                shifted.value(),
                c[i as int],
                x * polynomial_value(tail, x),
                p,
            );
        }
        acc = next;
    }
    proof {
        acc.lemma_canonical();
        assert(c.subrange(0, c.len() as int) =~= c);
        lemma_congruent_reduced(acc.value(), polynomial_value(c, x), F::modulus());
    }
    acc
}

impl<G: Copy> UniversalParams<G> {
    /// The maximum degree that the reference string supports, or nothing
    /// where it holds no generator.
    pub fn max_degree(&self) -> (degree: Option<usize>)
        ensures
            self.comm_key.len() > 0 ==> degree == Some((self.comm_key.len() - 1) as usize),
            self.comm_key.len() == 0 ==> degree is None,
    {
        if self.comm_key.len() == 0 {
            None
        } else {
            Some(self.comm_key.len() - 1)
        }
    }
}

/// Whether the keys are the reference string cut to the degree that `trim`
/// supports for `supported_degree`: they hold the first generators up to
/// that degree, the two other generators, and the maximum degree of the
/// reference string.
pub open spec fn trimmed<G: Copy>(
    srs: UniversalParams<G>,
    supported_degree: nat,
    pk: ProverParam<G>,
    vk: VerifierParam<G>,
) -> bool {
    &&& pk.comm_key@ == srs.comm_key@.subrange(0, (rounded_degree(supported_degree) + 1) as int)
    &&& pk.h == srs.h
    &&& pk.s == srs.s
    &&& pk.max_degree == srs.comm_key.len() - 1
    &&& vk.comm_key@ == pk.comm_key@
    &&& vk.h == pk.h
    &&& vk.s == pk.s
    &&& vk.max_degree == pk.max_degree
}

/// Cuts the reference string to the least degree of the form `2^k - 1` that
/// is no less than `supported_degree`: the keys hold the first `2^k`
/// generators. It fails with `InvalidParameters` exactly when the reference
/// string does not hold that many.
pub fn trim_reference_string<G: Copy>(srs: &UniversalParams<G>, supported_degree: usize) -> (res:
    Result<(ProverParam<G>, VerifierParam<G>), PCSError>)
    ensures
        rounded_degree(supported_degree as nat) < srs.comm_key.len() ==> res is Ok && trimmed(
            *srs,
            supported_degree as nat,
            res->Ok_0.0,
            res->Ok_0.1,
        ),
        rounded_degree(supported_degree as nat) >= srs.comm_key.len() ==> res == Err::<
            (ProverParam<G>, VerifierParam<G>),
            PCSError,
        >(PCSError::InvalidParameters),
{
    proof {
        lemma_ceil_power_of_two_bounds((supported_degree + 1) as nat);
    }
    if supported_degree == usize::MAX {
        return Err(PCSError::InvalidParameters);
    }
    let size = match next_power_of_two(supported_degree + 1) {
        Some(size) => size,
        None => {
            return Err(PCSError::InvalidParameters);
        },
    };
    if size > srs.comm_key.len() {
        return Err(PCSError::InvalidParameters);
    }
    let mut comm_key: Vec<G> = Vec::new();
    let mut i: usize = 0;
    while i < size
        invariant
            i <= size,
            size <= srs.comm_key.len(),
            comm_key@ == srs.comm_key@.subrange(0, i as int),
        decreases size - i,
    {
        comm_key.push(srs.comm_key[i]);
        i += 1;
        assert(comm_key@ =~= srs.comm_key@.subrange(0, i as int));
    }
    let pk = ProverParam {
        comm_key: copy_elements(&comm_key),
        h: srs.h,
        s: srs.s,
        max_degree: srs.comm_key.len() - 1,
    };
    let vk = ProverParam { comm_key, h: srs.h, s: srs.s, max_degree: srs.comm_key.len() - 1 };
    Ok((pk, vk))
}

impl<E: CommitmentGroup> UnivariateIPA<E> {
    /// Cuts the reference string of the curve to a supported degree: the
    /// keys that `trim_reference_string` gives.
    pub fn trim(srs: &UniversalParams<E::G1Affine>, supported_degree: usize) -> (res: Result<
        (ProverParam<E::G1Affine>, VerifierParam<E::G1Affine>),
        PCSError,
    >)
        ensures
            rounded_degree(supported_degree as nat) < srs.comm_key.len() ==> res is Ok && trimmed(
                *srs,
                supported_degree as nat,
                res->Ok_0.0,
                res->Ok_0.1,
            ),
            rounded_degree(supported_degree as nat) >= srs.comm_key.len() ==> res == Err::<
                (ProverParam<E::G1Affine>, VerifierParam<E::G1Affine>),
                PCSError,
            >(PCSError::InvalidParameters),
    {
        trim_reference_string(srs, supported_degree)
    }

    /// The values of the polynomials at their points, pair by pair, for as
    /// many pairs as there are of both.
    pub fn batch_evaluate(polynomials: &Vec<Vec<E::Fr>>, points: &Vec<E::Fr>) -> (evaluations:
        Vec<E::Fr>)
        ensures
            evaluations.len() == if polynomials.len() <= points.len() {
                polynomials.len()
            } else {
                points.len()
            },
            forall|i: int|
                0 <= i < evaluations.len() ==> (#[trigger] evaluations@[i]).value()
                    == polynomial_value(values(polynomials@[i]@), points@[i].value())
                    % E::Fr::modulus(),
    {
        let mut evaluations: Vec<E::Fr> = Vec::new();
        let mut i: usize = 0;
        while i < polynomials.len() && i < points.len()
            invariant
                i <= polynomials.len(),
                i <= points.len(),
                evaluations.len() == i,
                forall|j: int|
                    0 <= j < i ==> (#[trigger] evaluations@[j]).value() == polynomial_value(
                        values(polynomials@[j]@),
                        points@[j].value(),
                    ) % E::Fr::modulus(),
            decreases polynomials.len() - i,
        {
            evaluations.push(evaluate(&polynomials[i], &points[i]));
            i += 1;
        }
        evaluations
    }
}

/// The least power of two that is no less than `n` is no less than `n`,
/// and at least one.
pub proof fn lemma_ceil_power_of_two_bounds(n: nat)
    ensures
        ceil_power_of_two(n) >= n,
        ceil_power_of_two(n) >= 1,
    decreases n,
{
    if n > 1 {
        lemma_ceil_power_of_two_bounds((n + 1) / 2);
    }
}

} // verus!
