//! The additively homomorphic vector commitment that the folding scheme
//! consumes: the interface, the algebraic laws an implementation owes, and
//! nothing of any scheme's internals.

use ark_std::rand::rngs::StdRng;
use crate::errors::SangriaError;
use crate::field::{reduced, values, PrimeField};
use crate::modular::fold_vector;
use vstd::prelude::*;

verus! {

/// An additively homomorphic commitment scheme for vectors over `F`.
///
/// A commitment is spoken of through its value in the group `Self::Group`;
/// the laws are what folding needs of that group, of `commit` and of the
/// encoding.
pub trait HomomorphicCommitmentScheme<F: PrimeField> {
    /// The key under which vectors of one fixed length are committed.
    type CommitKey;

    /// A commitment as the program holds it.
    type Commitment: Copy;

    /// A commitment as the contracts see it.
    type Group;

    /// A key as the contracts see it.
    type KeyView;

    /// What a held key stands for.
    spec fn key_view(key: &Self::CommitKey) -> Self::KeyView;

    /// The length of the vectors that `key` supports.
    spec fn key_length(key: Self::KeyView) -> nat;

    /// The group element that a held commitment stands for.
    spec fn group_value(c: &Self::Commitment) -> Self::Group;

    /// The commitment to the vector `x` under blinding `r`.
    spec fn commit_spec(key: Self::KeyView, x: Seq<nat>, r: nat) -> Self::Group;

    /// The group operation.
    spec fn add_spec(a: Self::Group, b: Self::Group) -> Self::Group;

    /// The action of the field on the group.
    spec fn scale_spec(a: Self::Group, c: nat) -> Self::Group;

    /// The identity of the group: the commitment that adds nothing.
    spec fn zero_spec() -> Self::Group;

    /// Whether a value is an element of the group.
    spec fn in_group(a: Self::Group) -> bool;

    /// The field elements under which a commitment enters a transcript.
    spec fn encoding_spec(a: Self::Group) -> Seq<nat>;

    /// What a held commitment stands for is an element of the group.
    proof fn lemma_held_in_group(c: &Self::Commitment)
        ensures
            Self::in_group(Self::group_value(c)),
    ;

    /// Adding the identity changes nothing.
    proof fn lemma_add_zero(a: Self::Group)
        requires
            Self::in_group(a),
        ensures
            Self::add_spec(a, Self::zero_spec()) == a,
    ;

    /// Scaling by one changes nothing.
    proof fn lemma_scale_one(a: Self::Group)
        requires
            Self::in_group(a),
        ensures
            Self::scale_spec(a, 1) == a,
    ;

    /// Scaling by zero gives the identity.
    proof fn lemma_scale_zero(a: Self::Group)
        ensures
            Self::scale_spec(a, 0) == Self::zero_spec(),
    ;

    /// The group operation is commutative.
    proof fn lemma_add_commutative(a: Self::Group, b: Self::Group)
        ensures
            Self::add_spec(a, b) == Self::add_spec(b, a),
    ;

    /// Scaling distributes over the field's addition.
    proof fn lemma_scale_distributes(a: Self::Group, c1: nat, c2: nat)
        requires
            c1 < F::modulus(),
            c2 < F::modulus(),
        ensures
            Self::scale_spec(a, (c1 + c2) % F::modulus()) == Self::add_spec(
                Self::scale_spec(a, c1),
                Self::scale_spec(a, c2),
            ),
    ;

    /// Committing is linear: the commitment to `x1 + c * x2` under blinding
    /// `r1 + c * r2` is the commitment to `x1` plus `c` times that to `x2`.
    proof fn lemma_commit_homomorphic(
        key: Self::KeyView,
        x1: Seq<nat>,
        r1: nat,
        x2: Seq<nat>,
        r2: nat,
        c: nat,
    )
        requires
            x1.len() == Self::key_length(key),
            x2.len() == Self::key_length(key),
            reduced(x1, F::modulus()),
            reduced(x2, F::modulus()),
            r1 < F::modulus(),
            r2 < F::modulus(),
            c < F::modulus(),
        ensures
            Self::commit_spec(
                key,
                fold_vector(x1, x2, c, F::modulus()),
                (r1 + c * r2) % F::modulus(),
            ) == Self::add_spec(
                Self::commit_spec(key, x1, r1),
                Self::scale_spec(Self::commit_spec(key, x2, r2), c),
            ),
    ;

    /// A commitment can be read back from where its encoding starts: two
    /// commitments whose encodings start one sequence are the same
    /// commitment.
    proof fn lemma_encoding_injective(a: Self::Group, b: Self::Group, e: Seq<nat>)
        requires
            Self::encoding_spec(a).is_prefix_of(e),
            Self::encoding_spec(b).is_prefix_of(e),
        ensures
            a == b,
    ;

    /// A key for vectors of length exactly `len`.
    fn setup(public_randomness: &mut StdRng, len: usize) -> (key: Self::CommitKey)
        ensures
            Self::key_length(Self::key_view(&key)) == len,
    ;

    /// A copy of a key.
    fn clone_key(key: &Self::CommitKey) -> (copy: Self::CommitKey)
        ensures
            Self::key_view(&copy) == Self::key_view(key),
    ;

    /// The commitment to `x` under blinding `r`; it fails exactly when the
    /// length of `x` is not the one that the key supports.
    fn commit(commit_key: &Self::CommitKey, x: &Vec<F>, r: F) -> (res: Result<
        Self::Commitment,
        SangriaError,
    >)
        ensures
            x.len() == Self::key_length(Self::key_view(commit_key)) ==> res is Ok
                && Self::group_value(&res->Ok_0) == Self::commit_spec(
                Self::key_view(commit_key),
                values(x@),
                r.value(),
            ),
            x.len() != Self::key_length(Self::key_view(commit_key)) ==> res == Err::<
                Self::Commitment,
                SangriaError,
            >(SangriaError::IndexOutOfBounds),
    ;

    /// The commitment that stands for the identity of the group.
    fn zero_commitment() -> (zero: Self::Commitment)
        ensures
            Self::group_value(&zero) == Self::zero_spec(),
    ;

    /// The sum of two commitments.
    fn add_commitments(a: &Self::Commitment, b: &Self::Commitment) -> (sum: Self::Commitment)
        ensures
            Self::group_value(&sum) == Self::add_spec(
                Self::group_value(a),
                Self::group_value(b),
            ),
    ;

    /// The commitment `a` scaled by the field element `c`.
    fn scale_commitment(a: &Self::Commitment, c: &F) -> (scaled: Self::Commitment)
        ensures
            Self::group_value(&scaled) == Self::scale_spec(Self::group_value(a), c.value()),
    ;

    /// Whether two held commitments stand for the same group element.
    fn same_commitment(a: &Self::Commitment, b: &Self::Commitment) -> (same: bool)
        ensures
            same == (Self::group_value(a) == Self::group_value(b)),
    ;

    /// The transcript encoding of a commitment.
    fn commitment_to_field_elements(a: &Self::Commitment) -> (encoding: Vec<F>)
        ensures
            values(encoding@) == Self::encoding_spec(Self::group_value(a)),
    ;
}

} // verus!
