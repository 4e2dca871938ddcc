//! Vectors and tables of integers modulo `p`: the operations in which the
//! contracts of folding are written, and the executable versions over a
//! field.

use crate::errors::SangriaError;
use crate::field::{values, PrimeField};
use vstd::arithmetic::div_mod::{
    lemma_add_mod_noop, lemma_mod_twice, lemma_mul_mod_noop_general, lemma_small_mod,
};
use vstd::prelude::*;

verus! {

/// `a + b` modulo `p`.
pub open spec fn add_mod(a: nat, b: nat, p: nat) -> nat {
    (a + b) % p
}

/// `a * b` modulo `p`.
pub open spec fn mul_mod(a: nat, b: nat, p: nat) -> nat {
    (a * b) % p
}

/// `l + c * r` modulo `p`.
pub open spec fn fold_mod(l: nat, r: nat, c: nat, p: nat) -> nat {
    (l + c * r) % p
}

/// The entrywise sum of `x` and `y` modulo `p`; as long as `x`.
pub open spec fn add_vector(x: Seq<nat>, y: Seq<nat>, p: nat) -> Seq<nat> {
    Seq::new(x.len(), |i: int| add_mod(x[i], y[i], p))
}

/// The vector `x` with every entry multiplied by `c` modulo `p`.
pub open spec fn scale_vector(x: Seq<nat>, c: nat, p: nat) -> Seq<nat> {
    Seq::new(x.len(), |i: int| mul_mod(c, x[i], p))
}

/// The vector `l + c * r` modulo `p`, entry by entry; as long as `l`.
pub open spec fn fold_vector(l: Seq<nat>, r: Seq<nat>, c: nat, p: nat) -> Seq<nat> {
    Seq::new(l.len(), |i: int| fold_mod(l[i], r[i], c, p))
}

/// The column-wise sum of two tables modulo `p`.
pub open spec fn add_matrix(a: Seq<Seq<nat>>, b: Seq<Seq<nat>>, p: nat) -> Seq<Seq<nat>> {
    Seq::new(a.len(), |k: int| add_vector(a[k], b[k], p))
}

/// The table `a` with every entry multiplied by `c` modulo `p`.
pub open spec fn scale_matrix(a: Seq<Seq<nat>>, c: nat, p: nat) -> Seq<Seq<nat>> {
    Seq::new(a.len(), |k: int| scale_vector(a[k], c, p))
}

/// The table `l + c * r` modulo `p`, column by column.
pub open spec fn fold_matrix(l: Seq<Seq<nat>>, r: Seq<Seq<nat>>, c: nat, p: nat) -> Seq<
    Seq<nat>,
> {
    Seq::new(l.len(), |k: int| fold_vector(l[k], r[k], c, p))
}

/// Whether two tables have the same number of columns and, column by
/// column, the same length.
pub open spec fn same_shape(a: Seq<Seq<nat>>, b: Seq<Seq<nat>>) -> bool {
    &&& a.len() == b.len()
    &&& forall|k: int| 0 <= k < a.len() ==> (#[trigger] a[k]).len() == b[k].len()
}

/// `(l + c * r) mod p` may be computed with the product reduced first.
pub proof fn lemma_fold_entry(l: nat, r: nat, c: nat, p: nat)
    requires
        p > 0,
    ensures
        (l + (c * r) % p) % p == (l + c * r) % p,
{
    lemma_add_mod_noop(l as int, (c * r) as int, p as int);
    lemma_add_mod_noop(l as int, ((c * r) % p) as int, p as int);
    lemma_mod_twice((c * r) as int, p as int);
}

/// Folding is adding the scaled right-hand side.
pub proof fn lemma_fold_is_add_scale(l: Seq<nat>, r: Seq<nat>, c: nat, p: nat)
    requires
        p > 0,
        l.len() == r.len(),
    ensures
        fold_vector(l, r, c, p) == add_vector(l, scale_vector(r, c, p), p),
{
    assert forall|i: int| 0 <= i < l.len() implies fold_vector(l, r, c, p)[i] == add_vector(
        l,
        scale_vector(r, c, p),
        p,
    )[i] by {
        lemma_fold_entry(l[i], r[i], c, p);
    }
    assert(fold_vector(l, r, c, p) =~= add_vector(l, scale_vector(r, c, p), p));
}

/// `(c1 + c2) x` is `c1 x + c2 x` in the field of `p` elements.
pub proof fn lemma_mul_mod_distributes(c1: nat, c2: nat, x: nat, p: nat)
    requires
        p > 0,
    ensures
        mul_mod(add_mod(c1, c2, p), x, p) == add_mod(mul_mod(c1, x, p), mul_mod(c2, x, p), p),
{
    lemma_mul_mod_noop_general((c1 + c2) as int, x as int, p as int);
    assert((c1 + c2) * x == c1 * x + c2 * x) by (nonlinear_arith);
    lemma_add_mod_noop((c1 * x) as int, (c2 * x) as int, p as int);
}

/// Whether `x` and `y` leave the same remainder modulo `p`.
pub open spec fn congruent(x: nat, y: nat, p: nat) -> bool {
    x % p == y % p
}

/// Sums of congruent numbers are congruent.
pub proof fn lemma_congruent_add(x1: nat, y1: nat, x2: nat, y2: nat, p: nat)
    requires
        p > 0,
        congruent(x1, y1, p),
        congruent(x2, y2, p),
    ensures
        congruent(x1 + x2, y1 + y2, p),
{
    lemma_add_mod_noop(x1 as int, x2 as int, p as int);
    lemma_add_mod_noop(y1 as int, y2 as int, p as int);
}

/// Products of congruent numbers are congruent.
pub proof fn lemma_congruent_mul(x1: nat, y1: nat, x2: nat, y2: nat, p: nat)
    requires
        p > 0,
        congruent(x1, y1, p),
        congruent(x2, y2, p),
    ensures
        congruent(x1 * x2, y1 * y2, p),
{
    lemma_mul_mod_noop_general(x1 as int, x2 as int, p as int);
    lemma_mul_mod_noop_general(y1 as int, y2 as int, p as int);
}

/// A number is congruent to its remainder.
pub proof fn lemma_congruent_mod(x: nat, p: nat)
    requires
        p > 0,
    ensures
        congruent(x % p, x, p),
{
    lemma_mod_twice(x as int, p as int);
}

/// The result of a field multiplication is congruent to the product of
/// whatever its operands are congruent to.
pub proof fn lemma_mul_step(v: nat, a: nat, b: nat, big_a: nat, big_b: nat, p: nat)
    requires
        p > 0,
        v == (a * b) % p,
        congruent(a, big_a, p),
        congruent(b, big_b, p),
    ensures
        congruent(v, big_a * big_b, p),
{
    lemma_congruent_mod(a * b, p);
    lemma_congruent_mul(a, big_a, b, big_b, p);
}

/// The result of a field addition is congruent to the sum of whatever its
/// operands are congruent to.
pub proof fn lemma_add_step(v: nat, a: nat, b: nat, big_a: nat, big_b: nat, p: nat)
    requires
        p > 0,
        v == (a + b) % p,
        congruent(a, big_a, p),
        congruent(b, big_b, p),
    ensures
        congruent(v, big_a + big_b, p),
{
    lemma_congruent_mod(a + b, p);
    lemma_congruent_add(a, big_a, b, big_b, p);
}

/// A reduced number that is congruent to `x` is the remainder of `x`.
pub proof fn lemma_congruent_reduced(v: nat, x: nat, p: nat)
    requires
        v < p,
        congruent(v, x, p),
    ensures
        v == x % p,
{
    lemma_small_mod(v, p);
}

/// The entrywise sum of two vectors of equal length.
pub(crate) fn add_same_length<F: PrimeField>(x: &Vec<F>, y: &Vec<F>) -> (sum: Vec<F>)
    requires
        x.len() == y.len(),
    ensures
        values(sum@) == add_vector(values(x@), values(y@), F::modulus()),
        sum.len() == x.len(),
{
    let mut out: Vec<F> = Vec::new();
    let mut i: usize = 0;
    while i < x.len()
        invariant
            i <= x.len(),
            x.len() == y.len(),
            out.len() == i,
            forall|j: int|
                0 <= j < i ==> (#[trigger] out@[j]).value() == (x@[j].value() + y@[j].value())
                    % F::modulus(),
        decreases x.len() - i,
    {
        out.push(x[i].add(&y[i]));
        i += 1;
    }
    assert forall|j: int| 0 <= j < out@.len() implies values(out@)[j] == add_vector(
        values(x@),
        values(y@),
        F::modulus(),
    )[j] by {
        assert(out@[j].value() == (x@[j].value() + y@[j].value()) % F::modulus());
    }
    assert(values(out@) =~= add_vector(values(x@), values(y@), F::modulus()));
    out
}

/// The vector `x` with every entry multiplied by `c`.
pub fn scale_elements<F: PrimeField>(x: &Vec<F>, c: &F) -> (scaled: Vec<F>)
    ensures
        values(scaled@) == scale_vector(values(x@), c.value(), F::modulus()),
        scaled.len() == x.len(),
{
    let mut out: Vec<F> = Vec::new();
    let mut i: usize = 0;
    while i < x.len()
        invariant
            i <= x.len(),
            out.len() == i,
            forall|j: int|
                0 <= j < i ==> (#[trigger] out@[j]).value() == (c.value() * x@[j].value())
                    % F::modulus(),
        decreases x.len() - i,
    {
        out.push(c.mul(&x[i]));
        i += 1;
    }
    assert forall|j: int| 0 <= j < out@.len() implies values(out@)[j] == scale_vector(
        values(x@),
        c.value(),
        F::modulus(),
    )[j] by {
        assert(out@[j].value() == (c.value() * x@[j].value()) % F::modulus());
    }
    assert(values(out@) =~= scale_vector(values(x@), c.value(), F::modulus()));
    out
}

/// The vector `l + c * r`, for two vectors of equal length.
pub(crate) fn fold_same_length<F: PrimeField>(l: &Vec<F>, r: &Vec<F>, c: &F) -> (folded: Vec<F>)
    requires
        l.len() == r.len(),
    ensures
        values(folded@) == fold_vector(values(l@), values(r@), c.value(), F::modulus()),
        folded.len() == l.len(),
{
    let scaled = scale_elements(r, c);
    let folded = add_same_length(l, &scaled);
    proof {
        c.lemma_canonical();
        lemma_fold_is_add_scale(values(l@), values(r@), c.value(), F::modulus());
    }
    folded
}

/// The entrywise sum of two vectors, or `IndexOutOfBounds` where their
/// lengths differ.
pub fn add_elements<F: PrimeField>(x: &Vec<F>, y: &Vec<F>) -> (res: Result<Vec<F>, SangriaError>)
    ensures
        x.len() == y.len() ==> res is Ok && values(res->Ok_0@) == add_vector(
            values(x@),
            values(y@),
            F::modulus(),
        ),
        x.len() != y.len() ==> res == Err::<Vec<F>, SangriaError>(SangriaError::IndexOutOfBounds),
{
    if x.len() != y.len() {
        return Err(SangriaError::IndexOutOfBounds);
    }
    Ok(add_same_length(x, y))
}

/// The vector `l + c * r`, or `IndexOutOfBounds` where the lengths of the
/// two vectors differ.
pub fn fold_elements<F: PrimeField>(l: &Vec<F>, r: &Vec<F>, c: &F) -> (res: Result<
    Vec<F>,
    SangriaError,
>)
    ensures
        l.len() == r.len() ==> res is Ok && values(res->Ok_0@) == fold_vector(
            values(l@),
            values(r@),
            c.value(),
            F::modulus(),
        ),
        l.len() != r.len() ==> res == Err::<Vec<F>, SangriaError>(SangriaError::IndexOutOfBounds),
{
    if l.len() != r.len() {
        return Err(SangriaError::IndexOutOfBounds);
    }
    Ok(fold_same_length(l, r, c))
}

/// Whether two vectors hold the same field elements.
pub fn same_elements<F: PrimeField>(x: &Vec<F>, y: &Vec<F>) -> (same: bool)
    ensures
        same == (values(x@) == values(y@)),
{
    if x.len() != y.len() {
        assert(values(x@).len() != values(y@).len());
        return false;
    }
    let mut i: usize = 0;
    while i < x.len()
        invariant
            i <= x.len(),
            x.len() == y.len(),
            forall|j: int| 0 <= j < i ==> (#[trigger] x@[j]).value() == y@[j].value(),
        decreases x.len() - i,
    {
        if !x[i].equals(&y[i]) {
            assert(values(x@)[i as int] != values(y@)[i as int]);
            return false;
        }
        i += 1;
    }
    assert(values(x@) =~= values(y@));
    true
}

} // verus!
