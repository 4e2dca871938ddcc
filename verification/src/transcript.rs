//! The Fiat-Shamir transcript: how values are written down as field
//! elements, in which order, and the sponge that turns what was written into
//! a challenge.

use crate::errors::SangriaError;
use crate::field::{copy_elements, matrix_values, values, PrimeField};
use vstd::arithmetic::div_mod::lemma_small_mod;
use vstd::prelude::*;

verus! {

/// `n` as an element of the field of `p` elements.
pub open spec fn count_mod(n: nat, p: nat) -> nat {
    n % p
}

/// A vector as it enters a transcript: its length, then its entries.
pub open spec fn vector_encoding(v: Seq<nat>, p: nat) -> Seq<nat> {
    seq![count_mod(v.len(), p)] + v
}

/// The first `k` columns of a table as they enter a transcript, one after
/// the other.
pub open spec fn columns_encoding(m: Seq<Seq<nat>>, k: nat, p: nat) -> Seq<nat>
    decreases k,
{
    if k == 0 {
        Seq::empty()
    } else {
        columns_encoding(m, (k - 1) as nat, p) + vector_encoding(m[k - 1], p)
    }
}

/// A table as it enters a transcript: the number of its columns, then each
/// column as a vector.
pub open spec fn matrix_encoding(m: Seq<Seq<nat>>, p: nat) -> Seq<nat> {
    seq![count_mod(m.len(), p)] + columns_encoding(m, m.len(), p)
}

/// A byte string as it enters a transcript over the field of `p` elements:
/// its length, then one element for each byte.
pub open spec fn bytes_encoding(bytes: Seq<u8>, p: nat) -> Seq<nat> {
    seq![count_mod(bytes.len(), p)] + Seq::new(
        bytes.len(),
        |i: int| count_mod(bytes[i] as nat, p),
    )
}

/// The values of a concatenation are the concatenation of the values.
pub proof fn lemma_values_concat<F: PrimeField>(a: Seq<F>, b: Seq<F>)
    ensures
        values(a + b) == values(a) + values(b),
{
    assert(values(a + b) =~= values(a) + values(b));
}

/// Appends one element to the transcript.
pub fn append_element<F: PrimeField>(dest: &mut Vec<F>, x: F)
    ensures
        values(final(dest)@) == values(old(dest)@) + seq![x.value()],
{
    dest.push(x);
    assert(values(dest@) =~= values(old(dest)@) + seq![x.value()]);
}

/// Appends a count to the transcript.
pub fn append_count<F: PrimeField>(dest: &mut Vec<F>, n: usize)
    ensures
        values(final(dest)@) == values(old(dest)@) + seq![count_mod(n as nat, F::modulus())],
{
    let x = F::from_u64(n as u64);
    append_element(dest, x);
}

/// Appends the elements of `src` to the transcript, as they are.
pub fn append_elements<F: PrimeField>(dest: &mut Vec<F>, src: &Vec<F>)
    ensures
        values(final(dest)@) == values(old(dest)@) + values(src@),
{
    let mut i: usize = 0;
    while i < src.len()
        invariant
            i <= src.len(),
            dest@ == old(dest)@ + src@.subrange(0, i as int),
        decreases src.len() - i,
    {
        dest.push(src[i]);
        i += 1;
        assert(dest@ =~= old(dest)@ + src@.subrange(0, i as int));
    }
    assert(src@.subrange(0, src.len() as int) =~= src@);
    proof {
        lemma_values_concat(old(dest)@, src@);
    }
}

/// Appends a vector to the transcript: its length, then its entries.
pub fn append_vector<F: PrimeField>(dest: &mut Vec<F>, v: &Vec<F>)
    ensures
        values(final(dest)@) == values(old(dest)@) + vector_encoding(values(v@), F::modulus()),
{
    append_count(dest, v.len());
    append_elements(dest, v);
    assert(values(dest@) =~= values(old(dest)@) + vector_encoding(values(v@), F::modulus()));
}

/// Appends a table to the transcript: the number of its columns, then each
/// column as a vector.
pub fn append_matrix<F: PrimeField>(dest: &mut Vec<F>, m: &Vec<Vec<F>>)
    ensures
        values(final(dest)@) == values(old(dest)@) + matrix_encoding(
            matrix_values(m@),
            F::modulus(),
        ),
{
    append_count(dest, m.len());
    let ghost start = values(dest@);
    let mut k: usize = 0;
    while k < m.len()
        invariant
            k <= m.len(),
            start == values(old(dest)@) + seq![count_mod(m.len() as nat, F::modulus())],
            values(dest@) == start + columns_encoding(
                matrix_values(m@),
                k as nat,
                F::modulus(),
            ),
        decreases m.len() - k,
    {
        let ghost before = values(dest@);
        append_vector(dest, &m[k]);
        k += 1;
        proof {
            let mv = matrix_values(m@);
            assert(mv[k - 1] == values(m@[k - 1]@));
            assert(columns_encoding(mv, k as nat, F::modulus()) == columns_encoding(
                mv,
                (k - 1) as nat,
                F::modulus(),
            ) + vector_encoding(mv[k - 1], F::modulus()));
            assert(values(dest@) =~= start + columns_encoding(mv, k as nat, F::modulus()));
        }
    }
    assert(values(dest@) =~= values(old(dest)@) + matrix_encoding(
        matrix_values(m@),
        F::modulus(),
    ));
}

/// Appends a byte string to the transcript: its length, then one element
/// for each byte.
pub fn append_bytes<F: PrimeField>(dest: &mut Vec<F>, bytes: &Vec<u8>)
    ensures
        values(final(dest)@) == values(old(dest)@) + bytes_encoding(bytes@, F::modulus()),
{
    append_count(dest, bytes.len());
    let ghost start = values(dest@);
    let mut i: usize = 0;
    while i < bytes.len()
        invariant
            i <= bytes.len(),
            start == values(old(dest)@) + seq![count_mod(bytes.len() as nat, F::modulus())],
            values(dest@) == start + Seq::new(
                i as nat,
                |j: int| count_mod(bytes@[j] as nat, F::modulus()),
            ),
        decreases bytes.len() - i,
    {
        append_element(dest, F::from_u64(bytes[i] as u64));
        i += 1;
        assert(values(dest@) =~= start + Seq::new(
            i as nat,
            |j: int| count_mod(bytes@[j] as nat, F::modulus()),
        ));
    }
    assert(values(dest@) =~= values(old(dest)@) + bytes_encoding(bytes@, F::modulus()));
}

/// Whether every column of the table is shorter than `p`.
pub open spec fn columns_countable(m: Seq<Seq<nat>>, p: nat) -> bool {
    forall|k: int| 0 <= k < m.len() ==> (#[trigger] m[k]).len() < p
}

/// Where `a` followed by `b` starts a sequence, `a` starts it and `b`
/// starts what follows `a` in it.
pub proof fn lemma_prefix_split(a: Seq<nat>, b: Seq<nat>, e: Seq<nat>)
    requires
        (a + b).is_prefix_of(e),
    ensures
        a.is_prefix_of(e),
        b.is_prefix_of(e.subrange(a.len() as int, e.len() as int)),
{
    let whole = a + b;
    let rest = e.subrange(a.len() as int, e.len() as int);
    assert(whole == e.subrange(0, whole.len() as int));
    assert forall|i: int| 0 <= i < a.len() implies a[i] == e.subrange(0, a.len() as int)[i] by {
        assert(whole[i] == e.subrange(0, whole.len() as int)[i]);
    }
    assert(a =~= e.subrange(0, a.len() as int));
    assert forall|i: int| 0 <= i < b.len() implies b[i] == rest.subrange(0, b.len() as int)[i] by {
        assert(whole[a.len() + i] == e.subrange(0, whole.len() as int)[a.len() + i]);
    }
    assert(b =~= rest.subrange(0, b.len() as int));
}

/// A vector can be read back from where its encoding starts: two vectors
/// whose encodings start one sequence are the same vector.
pub proof fn lemma_vector_encoding_injective(v1: Seq<nat>, v2: Seq<nat>, e: Seq<nat>, p: nat)
    requires
        v1.len() < p,
        v2.len() < p,
        vector_encoding(v1, p).is_prefix_of(e),
        vector_encoding(v2, p).is_prefix_of(e),
    ensures
        v1 == v2,
{
    let (e1, e2) = (vector_encoding(v1, p), vector_encoding(v2, p));
    lemma_small_mod(v1.len(), p);
    lemma_small_mod(v2.len(), p);
    assert(e1[0] == e[0]);
    assert(e2[0] == e[0]);
    assert forall|i: int| 0 <= i < v1.len() implies v1[i] == v2[i] by {
        assert(e1[i + 1] == e[i + 1]);
        assert(e2[i + 1] == e[i + 1]);
    }
    assert(v1 =~= v2);
}

/// The encoding of the first `k` columns reads the first `k` columns only.
pub proof fn lemma_columns_encoding_reads_columns(
    m1: Seq<Seq<nat>>,
    m2: Seq<Seq<nat>>,
    k: nat,
    p: nat,
)
    requires
        forall|j: int| 0 <= j < k ==> m1[j] == m2[j],
    ensures
        columns_encoding(m1, k, p) == columns_encoding(m2, k, p),
    decreases k,
{
    if k > 0 {
        lemma_columns_encoding_reads_columns(m1, m2, (k - 1) as nat, p);
    }
}

/// The columns of a table can be read back from where their encoding
/// starts: two tables whose first `k` columns have encodings that start one
/// sequence agree in those columns.
pub proof fn lemma_columns_encoding_injective(
    m1: Seq<Seq<nat>>,
    m2: Seq<Seq<nat>>,
    k: nat,
    e: Seq<nat>,
    p: nat,
)
    requires
        k <= m1.len(),
        k <= m2.len(),
        columns_countable(m1, p),
        columns_countable(m2, p),
        columns_encoding(m1, k, p).is_prefix_of(e),
        columns_encoding(m2, k, p).is_prefix_of(e),
    ensures
        forall|j: int| 0 <= j < k ==> m1[j] == m2[j],
        columns_encoding(m1, k, p) == columns_encoding(m2, k, p),
    decreases k,
{
    if k > 0 {
        let before1 = columns_encoding(m1, (k - 1) as nat, p);
        let before2 = columns_encoding(m2, (k - 1) as nat, p);
        let (last1, last2) = (vector_encoding(m1[k - 1], p), vector_encoding(m2[k - 1], p));
        assert(columns_encoding(m1, k, p) == before1 + last1);
        assert(columns_encoding(m2, k, p) == before2 + last2);
        lemma_prefix_split(before1, last1, e);
        lemma_prefix_split(before2, last2, e);
        lemma_columns_encoding_injective(m1, m2, (k - 1) as nat, e, p);
        let rest = e.subrange(before1.len() as int, e.len() as int);
        lemma_vector_encoding_injective(m1[k - 1], m2[k - 1], rest, p);
    }
}

/// A table can be read back from where its encoding starts: two tables
/// whose encodings start one sequence are the same table.
pub proof fn lemma_matrix_encoding_injective(
    m1: Seq<Seq<nat>>,
    m2: Seq<Seq<nat>>,
    e: Seq<nat>,
    p: nat,
)
    requires
        m1.len() < p,
        m2.len() < p,
        columns_countable(m1, p),
        columns_countable(m2, p),
        matrix_encoding(m1, p).is_prefix_of(e),
        matrix_encoding(m2, p).is_prefix_of(e),
    ensures
        m1 == m2,
{
    let (e1, e2) = (matrix_encoding(m1, p), matrix_encoding(m2, p));
    lemma_small_mod(m1.len(), p);
    lemma_small_mod(m2.len(), p);
    assert(e1[0] == e[0]);
    assert(e2[0] == e[0]);
    let rest = e.subrange(1, e.len() as int);
    let (c1, c2) = (columns_encoding(m1, m1.len(), p), columns_encoding(m2, m2.len(), p));
    lemma_prefix_split(seq![count_mod(m1.len(), p)], c1, e);
    lemma_prefix_split(seq![count_mod(m2.len(), p)], c2, e);
    lemma_columns_encoding_injective(m1, m2, m1.len(), rest, p);
    assert(m1 =~= m2);
}

/// A byte string can be read back from where its encoding starts, in a
/// field with more elements than a byte has values.
pub proof fn lemma_bytes_encoding_injective(b1: Seq<u8>, b2: Seq<u8>, e: Seq<nat>, p: nat)
    requires
        p > 255,
        b1.len() < p,
        b2.len() < p,
        bytes_encoding(b1, p).is_prefix_of(e),
        bytes_encoding(b2, p).is_prefix_of(e),
    ensures
        b1 == b2,
{
    let (e1, e2) = (bytes_encoding(b1, p), bytes_encoding(b2, p));
    lemma_small_mod(b1.len(), p);
    lemma_small_mod(b2.len(), p);
    assert(e1[0] == e[0]);
    assert(e2[0] == e[0]);
    assert forall|i: int| 0 <= i < b1.len() implies b1[i] == b2[i] by {
        assert(e1[i + 1] == e[i + 1]);
        assert(e2[i + 1] == e[i + 1]);
        lemma_small_mod(b1[i] as nat, p);
        lemma_small_mod(b2[i] as nat, p);
    }
    assert(b1 =~= b2);
}

/// The width of the Poseidon state: a rate of two and a capacity of one.
pub const POSEIDON_WIDTH: usize = 3;

/// What the round constants of a Poseidon sponge hold, as values.
pub struct PoseidonParametersView {
    /// The number of full rounds.
    pub full_rounds: nat,
    /// The number of partial rounds.
    pub partial_rounds: nat,
    /// The exponent of the S-box.
    pub alpha: nat,
    /// The MDS matrix, row by row.
    pub mds: Seq<Seq<nat>>,
    /// The additive round keys, round by round.
    pub ark: Seq<Seq<nat>>,
}

/// Whether the constants have the shape that a sponge of width three
/// needs: a square MDS matrix and one round key of full width for each
/// round.
pub open spec fn poseidon_shaped(v: PoseidonParametersView) -> bool {
    &&& v.full_rounds + v.partial_rounds <= u32::MAX
    &&& v.mds.len() == POSEIDON_WIDTH
    &&& forall|i: int| 0 <= i < v.mds.len() ==> (#[trigger] v.mds[i]).len() == POSEIDON_WIDTH
    &&& v.ark.len() == v.full_rounds + v.partial_rounds
    &&& forall|i: int| 0 <= i < v.ark.len() ==> (#[trigger] v.ark[i]).len() == POSEIDON_WIDTH
}

/// The constants of the Poseidon sponge that derives the challenges.
pub struct PoseidonParameters<F: PrimeField> {
    full_rounds: u32,
    partial_rounds: u32,
    alpha: u64,
    mds: Vec<Vec<F>>,
    ark: Vec<Vec<F>>,
}

impl<F: PrimeField> View for PoseidonParameters<F> {
    type V = PoseidonParametersView;

    closed spec fn view(&self) -> PoseidonParametersView {
        PoseidonParametersView {
            full_rounds: self.full_rounds as nat,
            partial_rounds: self.partial_rounds as nat,
            alpha: self.alpha as nat,
            mds: matrix_values(self.mds@),
            ark: matrix_values(self.ark@),
        }
    }
}

/// Whether every row of `m` has the width of the Poseidon state.
fn rows_have_width<F: PrimeField>(m: &Vec<Vec<F>>) -> (ok: bool)
    ensures
        ok == (forall|i: int|
            0 <= i < m@.len() ==> (#[trigger] matrix_values(m@)[i]).len() == POSEIDON_WIDTH),
{
    let mut i: usize = 0;
    while i < m.len()
        invariant
            i <= m.len(),
            forall|k: int| 0 <= k < i ==> (#[trigger] m@[k]).len() == POSEIDON_WIDTH,
        decreases m.len() - i,
    {
        if m[i].len() != POSEIDON_WIDTH {
            assert(matrix_values(m@)[i as int].len() != POSEIDON_WIDTH);
            return false;
        }
        i += 1;
    }
    assert forall|k: int| 0 <= k < m@.len() implies (#[trigger] matrix_values(m@)[k]).len()
        == POSEIDON_WIDTH by {
        assert(m@[k].len() == POSEIDON_WIDTH);
    }
    true
}

/// A copy of the rows of `m`.
fn copy_rows<F: PrimeField>(m: &Vec<Vec<F>>) -> (r: Vec<Vec<F>>)
    ensures
        matrix_values(r@) == matrix_values(m@),
{
    let mut out: Vec<Vec<F>> = Vec::new();
    let mut k: usize = 0;
    while k < m.len()
        invariant
            k <= m.len(),
            out.len() == k,
            forall|j: int| 0 <= j < k ==> (#[trigger] out@[j])@ == m@[j]@,
        decreases m.len() - k,
    {
        out.push(copy_elements(&m[k]));
        k += 1;
    }
    assert(matrix_values(out@) =~= matrix_values(m@));
    out
}

impl<F: PrimeField> PoseidonParameters<F> {
    #[verifier::type_invariant]
    spec fn well_formed(&self) -> bool {
        poseidon_shaped(self@)
    }

    /// The constants of a sponge, or `IndexOutOfBounds` where they do not
    /// have the shape that the sponge needs.
    pub fn new(
        full_rounds: u32,
        partial_rounds: u32,
        alpha: u64,
        mds: Vec<Vec<F>>,
        ark: Vec<Vec<F>>,
    ) -> (res: Result<Self, SangriaError>)
        ensures
            poseidon_shaped(
                PoseidonParametersView {
                    full_rounds: full_rounds as nat,
                    partial_rounds: partial_rounds as nat,
                    alpha: alpha as nat,
                    mds: matrix_values(mds@),
                    ark: matrix_values(ark@),
                },
            ) ==> res is Ok && res->Ok_0@ == (PoseidonParametersView {
                full_rounds: full_rounds as nat,
                partial_rounds: partial_rounds as nat,
                alpha: alpha as nat,
                mds: matrix_values(mds@),
                ark: matrix_values(ark@),
            }),
            !poseidon_shaped(
                PoseidonParametersView {
                    full_rounds: full_rounds as nat,
                    partial_rounds: partial_rounds as nat,
                    alpha: alpha as nat,
                    mds: matrix_values(mds@),
                    ark: matrix_values(ark@),
                },
            ) ==> res == Err::<Self, SangriaError>(SangriaError::IndexOutOfBounds),
    {
        let rounds: u64 = full_rounds as u64 + partial_rounds as u64;
        if rounds > u32::MAX as u64 {
            return Err(SangriaError::IndexOutOfBounds);
        }
        if mds.len() != POSEIDON_WIDTH || ark.len() as u64 != rounds {
            return Err(SangriaError::IndexOutOfBounds);
        }
        let mds_ok = rows_have_width(&mds);
        let ark_ok = rows_have_width(&ark);
        if !mds_ok || !ark_ok {
            return Err(SangriaError::IndexOutOfBounds);
        }
        Ok(PoseidonParameters { full_rounds, partial_rounds, alpha, mds, ark })
    }

    /// The number of full rounds.
    pub fn full_rounds(&self) -> (n: u32)
        ensures
            n == self@.full_rounds,
            poseidon_shaped(self@),
    {
        proof {
            use_type_invariant(self);
        }
        self.full_rounds
    }

    /// The number of partial rounds.
    pub fn partial_rounds(&self) -> (n: u32)
        ensures
            n == self@.partial_rounds,
    {
        self.partial_rounds
    }

    /// The exponent of the S-box.
    pub fn alpha(&self) -> (a: u64)
        ensures
            a == self@.alpha,
    {
        self.alpha
    }

    /// The MDS matrix, row by row.
    pub fn mds(&self) -> (rows: Vec<Vec<F>>)
        ensures
            matrix_values(rows@) == self@.mds,
    {
        copy_rows(&self.mds)
    }

    /// The additive round keys, round by round.
    pub fn ark(&self) -> (rows: Vec<Vec<F>>)
        ensures
            matrix_values(rows@) == self@.ark,
    {
        copy_rows(&self.ark)
    }
}

impl<F: PrimeField> Clone for PoseidonParameters<F> {
    fn clone(&self) -> (r: Self)
        ensures
            r@ == self@,
    {
        proof {
            use_type_invariant(self);
        }
        PoseidonParameters {
            full_rounds: self.full_rounds,
            partial_rounds: self.partial_rounds,
            alpha: self.alpha,
            mds: copy_rows(&self.mds),
            ark: copy_rows(&self.ark),
        }
    }
}

/// A sponge over `F` that derives challenges from what it has absorbed.
///
/// `squeeze_spec` is the first element that a fresh sponge with the given
/// constants yields once it has absorbed the given elements: a function of
/// those two alone.
pub trait FieldBasedCryptographicSponge<F: PrimeField> {
    /// The first element squeezed after absorbing `absorbed`.
    spec fn squeeze_spec(parameters: PoseidonParametersView, absorbed: Seq<nat>) -> nat;

    /// What is squeezed is an element of the field.
    proof fn lemma_squeeze_canonical(parameters: PoseidonParametersView, absorbed: Seq<nat>)
        ensures
            Self::squeeze_spec(parameters, absorbed) < F::modulus(),
    ;

    /// Absorbs `absorbed` into a fresh sponge and squeezes one element.
    fn squeeze_after_absorbing(parameters: &PoseidonParameters<F>, absorbed: &Vec<F>) -> (challenge:
        F)
        ensures
            challenge.value() == Self::squeeze_spec(parameters@, values(absorbed@)),
    ;
}

} // verus!
