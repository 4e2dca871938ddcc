//! The relation that is folded: a PLONK circuit, the instance and witness
//! tables of one execution, and their relaxed counterparts.

use crate::errors::SangriaError;
use crate::field::{copy_elements, lemma_values_reduced, matrix_values, reduced, values, PrimeField};
use crate::folding_scheme::{
    FoldingCommitmentConfig, SlackCommitment, SlackGroup, WitnessCommitment, WitnessGroup,
};
use crate::modular::{
    add_matrix, add_mod, add_same_length, add_vector, fold_matrix, fold_same_length, fold_vector,
    mul_mod, same_elements, same_shape, scale_elements, scale_matrix, scale_vector,
};
use crate::transcript::{
    append_count, append_element, append_elements, append_matrix, append_vector, count_mod,
    matrix_encoding, vector_encoding,
};
use crate::vector_commitment::HomomorphicCommitmentScheme;
use vstd::prelude::*;

verus! {

/// The index of the `q_L` selector.
pub const LEFT_SELECTOR_INDEX: usize = 0;

/// The index of the `q_R` selector.
pub const RIGHT_SELECTOR_INDEX: usize = 1;

/// The index of the `q_O` selector.
pub const OUTPUT_SELECTOR_INDEX: usize = 2;

/// The index of the `q_M` selector.
pub const MULTIPLICATION_SELECTOR_INDEX: usize = 3;

/// The index of the `q_C` selector.
pub const CONSTANT_SELECTOR_INDEX: usize = 4;

/// Whether all columns of a table have the same length.
pub open spec fn rectangular(m: Seq<Seq<nat>>) -> bool {
    forall|k: int| 0 <= k < m.len() ==> (#[trigger] m[k]).len() == m[0].len()
}

/// The number of rows of a table: the length of its columns, and zero for a
/// table without columns.
pub open spec fn row_count(m: Seq<Seq<nat>>) -> nat {
    if m.len() == 0 {
        0
    } else {
        m[0].len()
    }
}

/// Row `i` of a table: entry `i` of every column, in column order.
pub open spec fn row_of(m: Seq<Seq<nat>>, i: int) -> Seq<nat> {
    Seq::new(m.len(), |k: int| m[k][i])
}

/// Whether the columns held in `m` all have the same length.
spec fn columns_agree<F: PrimeField>(m: Seq<Vec<F>>) -> bool {
    forall|k: int| 0 <= k < m.len() ==> (#[trigger] m[k]).len() == m[0].len()
}

proof fn lemma_columns_agree<F: PrimeField>(m: Seq<Vec<F>>)
    requires
        columns_agree(m),
    ensures
        rectangular(matrix_values(m)),
        matrix_values(m).len() == m.len(),
        m.len() > 0 ==> row_count(matrix_values(m)) == m[0].len(),
{
    assert forall|k: int| 0 <= k < m.len() implies (#[trigger] matrix_values(m)[k]).len()
        == matrix_values(m)[0].len() by {
        assert(m[k].len() == m[0].len());
    }
}

/// Whether `m` is a table, decided column by column.
fn check_columns_agree<F: PrimeField>(m: &Vec<Vec<F>>) -> (ok: bool)
    ensures
        ok == columns_agree(m@),
{
    let mut k: usize = 0;
    while k < m.len()
        invariant
            k <= m.len(),
            forall|j: int| 0 <= j < k ==> (#[trigger] m@[j]).len() == m@[0].len(),
        decreases m.len() - k,
    {
        if m[k].len() != m[0].len() {
            return false;
        }
        k += 1;
    }
    true
}

/// A copy of the columns of `m`.
fn copy_columns<F: PrimeField>(m: &Vec<Vec<F>>) -> (r: Vec<Vec<F>>)
    ensures
        r@.len() == m@.len(),
        forall|k: int| 0 <= k < m@.len() ==> (#[trigger] r@[k])@ == m@[k]@,
        matrix_values(r@) == matrix_values(m@),
        columns_agree(m@) ==> columns_agree(r@),
{
    let mut out: Vec<Vec<F>> = Vec::new();
    let mut k: usize = 0;
    while k < m.len()
        invariant
            k <= m.len(),
            out.len() == k,
            forall|j: int| 0 <= j < k ==> (#[trigger] out@[j])@ == m@[j]@,
        decreases m.len() - k,
    {
        out.push(copy_elements(&m[k]));
        k += 1;
    }
    assert(matrix_values(out@) =~= matrix_values(m@));
    assert(columns_agree(m@) ==> columns_agree(out@)) by {
        if columns_agree(m@) {
            assert forall|j: int| 0 <= j < out@.len() implies (#[trigger] out@[j]).len()
                == out@[0].len() by {
                assert(m@[j].len() == m@[0].len());
                assert(out@[j]@ == m@[j]@);
                assert(out@[0]@ == m@[0]@);
            }
        }
    }
    out
}

/// A copy of column `column_index` of `m`, or the error where there is none.
fn column_of<F: PrimeField>(m: &Vec<Vec<F>>, column_index: usize) -> (res: Result<
    Vec<F>,
    SangriaError,
>)
    ensures
        column_index < m.len() ==> res is Ok && res->Ok_0@ == m@[column_index as int]@,
        column_index >= m.len() ==> res == Err::<Vec<F>, SangriaError>(
            SangriaError::IndexOutOfBounds,
        ),
{
    if column_index >= m.len() {
        return Err(SangriaError::IndexOutOfBounds);
    }
    Ok(copy_elements(&m[column_index]))
}

/// Row `row_index` of the table `m`, or the error where there is none.
fn row_of_columns<F: PrimeField>(m: &Vec<Vec<F>>, row_index: usize) -> (res: Result<
    Vec<F>,
    SangriaError,
>)
    requires
        columns_agree(m@),
    ensures
        row_index < row_count(matrix_values(m@)) ==> res is Ok && values(res->Ok_0@) == row_of(
            matrix_values(m@),
            row_index as int,
        ),
        row_index >= row_count(matrix_values(m@)) ==> res == Err::<Vec<F>, SangriaError>(
            SangriaError::IndexOutOfBounds,
        ),
{
    proof {
        lemma_columns_agree(m@);
    }
    if m.len() == 0 || row_index >= m[0].len() {
        return Err(SangriaError::IndexOutOfBounds);
    }
    let mut row: Vec<F> = Vec::new();
    let mut k: usize = 0;
    while k < m.len()
        invariant
            k <= m.len(),
            columns_agree(m@),
            m.len() > 0,
            row_index < m@[0].len(),
            row.len() == k,
            forall|j: int| 0 <= j < k ==> (#[trigger] row@[j]) == m@[j]@[row_index as int],
        decreases m.len() - k,
    {
        assert(m@[k as int].len() == m@[0].len());
        row.push(m[k][row_index]);
        k += 1;
    }
    assert(values(row@) =~= row_of(matrix_values(m@), row_index as int));
    Ok(row)
}

/// Whether two tables have the same shape, decided column by column.
fn shapes_agree<F: PrimeField>(a: &Vec<Vec<F>>, b: &Vec<Vec<F>>) -> (ok: bool)
    ensures
        ok == same_shape(matrix_values(a@), matrix_values(b@)),
{
    if a.len() != b.len() {
        return false;
    }
    let mut k: usize = 0;
    while k < a.len()
        invariant
            k <= a.len(),
            a.len() == b.len(),
            forall|j: int| 0 <= j < k ==> (#[trigger] a@[j]).len() == b@[j].len(),
        decreases a.len() - k,
    {
        if a[k].len() != b[k].len() {
            assert(matrix_values(a@)[k as int].len() != matrix_values(b@)[k as int].len());
            return false;
        }
        k += 1;
    }
    assert forall|j: int| 0 <= j < matrix_values(a@).len() implies (#[trigger] matrix_values(
        a@,
    )[j]).len() == matrix_values(b@)[j].len() by {
        assert(a@[j].len() == b@[j].len());
    }
    true
}

/// The table `m` with every entry multiplied by `c`.
fn scale_columns<F: PrimeField>(m: &Vec<Vec<F>>, c: &F) -> (r: Vec<Vec<F>>)
    ensures
        matrix_values(r@) == scale_matrix(matrix_values(m@), c.value(), F::modulus()),
        columns_agree(m@) ==> columns_agree(r@),
{
    let mut out: Vec<Vec<F>> = Vec::new();
    let mut k: usize = 0;
    while k < m.len()
        invariant
            k <= m.len(),
            out.len() == k,
            forall|j: int|
                0 <= j < k ==> values((#[trigger] out@[j])@) == scale_vector(
                    values(m@[j]@),
                    c.value(),
                    F::modulus(),
                ) && out@[j].len() == m@[j].len(),
        decreases m.len() - k,
    {
        out.push(scale_elements(&m[k], c));
        k += 1;
    }
    assert(matrix_values(out@) =~= scale_matrix(matrix_values(m@), c.value(), F::modulus()));
    assert(columns_agree(m@) ==> columns_agree(out@)) by {
        if columns_agree(m@) {
            assert forall|j: int| 0 <= j < out@.len() implies (#[trigger] out@[j]).len()
                == out@[0].len() by {
                assert(m@[j].len() == m@[0].len());
            }
        }
    }
    out
}

/// The entrywise sum of two tables of one shape.
fn add_columns<F: PrimeField>(a: &Vec<Vec<F>>, b: &Vec<Vec<F>>) -> (r: Vec<Vec<F>>)
    requires
        same_shape(matrix_values(a@), matrix_values(b@)),
    ensures
        matrix_values(r@) == add_matrix(matrix_values(a@), matrix_values(b@), F::modulus()),
        columns_agree(a@) ==> columns_agree(r@),
{
    let mut out: Vec<Vec<F>> = Vec::new();
    let mut k: usize = 0;
    while k < a.len()
        invariant
            k <= a.len(),
            out.len() == k,
            same_shape(matrix_values(a@), matrix_values(b@)),
            forall|j: int|
                0 <= j < k ==> values((#[trigger] out@[j])@) == add_vector(
                    values(a@[j]@),
                    values(b@[j]@),
                    F::modulus(),
                ) && out@[j].len() == a@[j].len(),
        decreases a.len() - k,
    {
        assert(matrix_values(a@)[k as int].len() == matrix_values(b@)[k as int].len());
        out.push(add_same_length(&a[k], &b[k]));
        k += 1;
    }
    assert(matrix_values(out@) =~= add_matrix(
        matrix_values(a@),
        matrix_values(b@),
        F::modulus(),
    ));
    assert(columns_agree(a@) ==> columns_agree(out@)) by {
        if columns_agree(a@) {
            assert forall|j: int| 0 <= j < out@.len() implies (#[trigger] out@[j]).len()
                == out@[0].len() by {
                assert(a@[j].len() == a@[0].len());
            }
        }
    }
    out
}

/// The table `l + c * r`, for two tables of one shape.
fn fold_columns<F: PrimeField>(l: &Vec<Vec<F>>, r: &Vec<Vec<F>>, c: &F) -> (folded: Vec<Vec<F>>)
    requires
        same_shape(matrix_values(l@), matrix_values(r@)),
    ensures
        matrix_values(folded@) == fold_matrix(
            matrix_values(l@),
            matrix_values(r@),
            c.value(),
            F::modulus(),
        ),
        columns_agree(l@) ==> columns_agree(folded@),
{
    let mut out: Vec<Vec<F>> = Vec::new();
    let mut k: usize = 0;
    while k < l.len()
        invariant
            k <= l.len(),
            out.len() == k,
            same_shape(matrix_values(l@), matrix_values(r@)),
            forall|j: int|
                0 <= j < k ==> values((#[trigger] out@[j])@) == fold_vector(
                    values(l@[j]@),
                    values(r@[j]@),
                    c.value(),
                    F::modulus(),
                ) && out@[j].len() == l@[j].len(),
        decreases l.len() - k,
    {
        assert(matrix_values(l@)[k as int].len() == matrix_values(r@)[k as int].len());
        out.push(fold_same_length(&l[k], &r[k], c));
        k += 1;
    }
    assert(matrix_values(out@) =~= fold_matrix(
        matrix_values(l@),
        matrix_values(r@),
        c.value(),
        F::modulus(),
    ));
    assert(columns_agree(l@) ==> columns_agree(out@)) by {
        if columns_agree(l@) {
            assert forall|j: int| 0 <= j < out@.len() implies (#[trigger] out@[j]).len()
                == out@[0].len() by {
                assert(l@[j].len() == l@[0].len());
            }
        }
    }
    out
}

/// Whether two tables hold the same field elements.
fn same_columns<F: PrimeField>(a: &Vec<Vec<F>>, b: &Vec<Vec<F>>) -> (same: bool)
    ensures
        same == (matrix_values(a@) == matrix_values(b@)),
{
    if a.len() != b.len() {
        assert(matrix_values(a@).len() != matrix_values(b@).len());
        return false;
    }
    let mut k: usize = 0;
    while k < a.len()
        invariant
            k <= a.len(),
            a.len() == b.len(),
            forall|j: int| 0 <= j < k ==> values((#[trigger] a@[j])@) == values(b@[j]@),
        decreases a.len() - k,
    {
        if !same_elements(&a[k], &b[k]) {
            assert(matrix_values(a@)[k as int] != matrix_values(b@)[k as int]);
            return false;
        }
        k += 1;
    }
    assert(matrix_values(a@) =~= matrix_values(b@));
    true
}

/// A PLONK instance: the sub-table of the trace with one row per public
/// input and one more row for the final output.
pub struct PLONKInstance<F: PrimeField> {
    matrix: Vec<Vec<F>>,
}

impl<F: PrimeField> Clone for PLONKInstance<F> {
    fn clone(&self) -> (r: Self)
        ensures
            r@ == self@,
    {
        proof {
            use_type_invariant(self);
        }
        PLONKInstance { matrix: copy_columns(&self.matrix) }
    }
}

impl<F: PrimeField> View for PLONKInstance<F> {
    type V = Seq<Seq<nat>>;

    /// The columns of the table, as values.
    closed spec fn view(&self) -> Seq<Seq<nat>> {
        matrix_values(self.matrix@)
    }
}

impl<F: PrimeField> PLONKInstance<F> {
    #[verifier::type_invariant]
    spec fn well_formed(&self) -> bool {
        columns_agree(self.matrix@)
    }

    /// Builds the table from its columns, which must all have one length.
    pub fn new(matrix: Vec<Vec<F>>) -> (res: Result<Self, SangriaError>)
        ensures
            rectangular(matrix_values(matrix@)) ==> res is Ok && res->Ok_0@ == matrix_values(
                matrix@,
            ),
            !rectangular(matrix_values(matrix@)) ==> res == Err::<Self, SangriaError>(
                SangriaError::IndexOutOfBounds,
            ),
    {
        let ok = check_columns_agree(&matrix);
        proof {
            if ok {
                lemma_columns_agree(matrix@);
            } else {
                let k = choose|k: int|
                    0 <= k < matrix@.len() && (#[trigger] matrix@[k]).len() != matrix@[0].len();
                assert(matrix_values(matrix@)[k].len() != matrix_values(matrix@)[0].len());
            }
        }
        if ok {
            Ok(PLONKInstance { matrix })
        } else {
            Err(SangriaError::IndexOutOfBounds)
        }
    }

    /// The number of columns.
    pub fn num_columns(&self) -> (n: usize)
        ensures
            n == self@.len(),
            rectangular(self@),
    {
        proof {
            use_type_invariant(self);
            lemma_columns_agree(self.matrix@);
        }
        self.matrix.len()
    }

    /// The number of rows.
    pub fn num_rows(&self) -> (n: usize)
        ensures
            n == row_count(self@),
            rectangular(self@),
    {
        proof {
            use_type_invariant(self);
            lemma_columns_agree(self.matrix@);
        }
        if self.matrix.len() == 0 {
            0
        } else {
            self.matrix[0].len()
        }
    }

    /// Column `column_index`, or `IndexOutOfBounds` where the table has no
    /// such column.
    pub fn column(&self, column_index: usize) -> (res: Result<Vec<F>, SangriaError>)
        ensures
            column_index < self@.len() ==> res is Ok && values(res->Ok_0@)
                == self@[column_index as int],
            column_index >= self@.len() ==> res == Err::<Vec<F>, SangriaError>(
                SangriaError::IndexOutOfBounds,
            ),
    {
        column_of(&self.matrix, column_index)
    }

    /// Row `row_index`, or `IndexOutOfBounds` where the table has no such
    /// row.
    pub fn row(&self, row_index: usize) -> (res: Result<Vec<F>, SangriaError>)
        ensures
            row_index < row_count(self@) ==> res is Ok && values(res->Ok_0@) == row_of(
                self@,
                row_index as int,
            ),
            row_index >= row_count(self@) ==> res == Err::<Vec<F>, SangriaError>(
                SangriaError::IndexOutOfBounds,
            ),
    {
        proof {
            use_type_invariant(self);
        }
        row_of_columns(&self.matrix, row_index)
    }

    /// Appends the table to a transcript: the number of its columns, then
    /// each column with its length.
    pub fn to_sponge_field_elements(&self, dest: &mut Vec<F>)
        ensures
            values(final(dest)@) == values(old(dest)@) + matrix_encoding(self@, F::modulus()),
    {
        append_matrix(dest, &self.matrix);
    }

    /// Whether the two tables hold the same field elements.
    pub fn same_as(&self, other: &Self) -> (same: bool)
        ensures
            same == (self@ == other@),
    {
        same_columns(&self.matrix, &other.matrix)
    }

    /// Whether the two tables have the same shape.
    pub fn same_shape_as(&self, other: &Self) -> (same: bool)
        ensures
            same == same_shape(self@, other@),
    {
        shapes_agree(&self.matrix, &other.matrix)
    }

    /// The table with every entry multiplied by `c`.
    pub fn scale(&self, c: &F) -> (scaled: Self)
        ensures
            scaled@ == scale_matrix(self@, c.value(), F::modulus()),
    {
        proof {
            use_type_invariant(self);
        }
        PLONKInstance { matrix: scale_columns(&self.matrix, c) }
    }

    /// The entrywise sum of two tables, or `IndexOutOfBounds` where their
    /// shapes differ.
    pub fn add(&self, rhs: &Self) -> (res: Result<Self, SangriaError>)
        ensures
            same_shape(self@, rhs@) ==> res is Ok && res->Ok_0@ == add_matrix(
                self@,
                rhs@,
                F::modulus(),
            ),
            !same_shape(self@, rhs@) ==> res == Err::<Self, SangriaError>(
                SangriaError::IndexOutOfBounds,
            ),
    {
        proof {
            use_type_invariant(self);
        }
        if !shapes_agree(&self.matrix, &rhs.matrix) {
            return Err(SangriaError::IndexOutOfBounds);
        }
        Ok(PLONKInstance { matrix: add_columns(&self.matrix, &rhs.matrix) })
    }

    /// The table `self + c * rhs`, or `IndexOutOfBounds` where the shapes of
    /// the two tables differ.
    pub fn fold(&self, rhs: &Self, c: &F) -> (res: Result<Self, SangriaError>)
        ensures
            same_shape(self@, rhs@) ==> res is Ok && res->Ok_0@ == fold_matrix(
                self@,
                rhs@,
                c.value(),
                F::modulus(),
            ),
            !same_shape(self@, rhs@) ==> res == Err::<Self, SangriaError>(
                SangriaError::IndexOutOfBounds,
            ),
    {
        proof {
            use_type_invariant(self);
        }
        if !shapes_agree(&self.matrix, &rhs.matrix) {
            return Err(SangriaError::IndexOutOfBounds);
        }
        Ok(PLONKInstance { matrix: fold_columns(&self.matrix, &rhs.matrix, c) })
    }
}

/// A PLONK witness: the sub-table of the trace with one row per circuit
/// gate.
pub struct PLONKWitness<F: PrimeField> {
    matrix: Vec<Vec<F>>,
}

impl<F: PrimeField> Clone for PLONKWitness<F> {
    fn clone(&self) -> (r: Self)
        ensures
            r@ == self@,
    {
        proof {
            use_type_invariant(self);
        }
        PLONKWitness { matrix: copy_columns(&self.matrix) }
    }
}

impl<F: PrimeField> View for PLONKWitness<F> {
    type V = Seq<Seq<nat>>;

    /// The columns of the table, as values.
    closed spec fn view(&self) -> Seq<Seq<nat>> {
        matrix_values(self.matrix@)
    }
}

impl<F: PrimeField> PLONKWitness<F> {
    #[verifier::type_invariant]
    spec fn well_formed(&self) -> bool {
        columns_agree(self.matrix@)
    }

    /// Builds the table from its columns, which must all have one length.
    pub fn new(matrix: Vec<Vec<F>>) -> (res: Result<Self, SangriaError>)
        ensures
            rectangular(matrix_values(matrix@)) ==> res is Ok && res->Ok_0@ == matrix_values(
                matrix@,
            ),
            !rectangular(matrix_values(matrix@)) ==> res == Err::<Self, SangriaError>(
                SangriaError::IndexOutOfBounds,
            ),
    {
        let ok = check_columns_agree(&matrix);
        proof {
            if ok {
                lemma_columns_agree(matrix@);
            } else {
                let k = choose|k: int|
                    0 <= k < matrix@.len() && (#[trigger] matrix@[k]).len() != matrix@[0].len();
                assert(matrix_values(matrix@)[k].len() != matrix_values(matrix@)[0].len());
            }
        }
        if ok {
            Ok(PLONKWitness { matrix })
        } else {
            Err(SangriaError::IndexOutOfBounds)
        }
    }

    /// The number of columns.
    pub fn num_columns(&self) -> (n: usize)
        ensures
            n == self@.len(),
            rectangular(self@),
    {
        proof {
            use_type_invariant(self);
            lemma_columns_agree(self.matrix@);
        }
        self.matrix.len()
    }

    /// The number of rows.
    pub fn num_rows(&self) -> (n: usize)
        ensures
            n == row_count(self@),
            rectangular(self@),
    {
        proof {
            use_type_invariant(self);
            lemma_columns_agree(self.matrix@);
        }
        if self.matrix.len() == 0 {
            0
        } else {
            self.matrix[0].len()
        }
    }

    /// Column `column_index`, or `IndexOutOfBounds` where the table has no
    /// such column.
    pub fn column(&self, column_index: usize) -> (res: Result<Vec<F>, SangriaError>)
        ensures
            column_index < self@.len() ==> res is Ok && values(res->Ok_0@)
                == self@[column_index as int],
            column_index >= self@.len() ==> res == Err::<Vec<F>, SangriaError>(
                SangriaError::IndexOutOfBounds,
            ),
    {
        column_of(&self.matrix, column_index)
    }

    /// Row `row_index`, or `IndexOutOfBounds` where the table has no such
    /// row.
    pub fn row(&self, row_index: usize) -> (res: Result<Vec<F>, SangriaError>)
        ensures
            row_index < row_count(self@) ==> res is Ok && values(res->Ok_0@) == row_of(
                self@,
                row_index as int,
            ),
            row_index >= row_count(self@) ==> res == Err::<Vec<F>, SangriaError>(
                SangriaError::IndexOutOfBounds,
            ),
    {
        proof {
            use_type_invariant(self);
        }
        row_of_columns(&self.matrix, row_index)
    }

    /// Whether the two tables hold the same field elements.
    pub fn same_as(&self, other: &Self) -> (same: bool)
        ensures
            same == (self@ == other@),
    {
        same_columns(&self.matrix, &other.matrix)
    }

    /// Whether the two tables have the same shape.
    pub fn same_shape_as(&self, other: &Self) -> (same: bool)
        ensures
            same == same_shape(self@, other@),
    {
        shapes_agree(&self.matrix, &other.matrix)
    }

    /// The table with every entry multiplied by `c`.
    pub fn scale(&self, c: &F) -> (scaled: Self)
        ensures
            scaled@ == scale_matrix(self@, c.value(), F::modulus()),
    {
        proof {
            use_type_invariant(self);
        }
        PLONKWitness { matrix: scale_columns(&self.matrix, c) }
    }

    /// The entrywise sum of two tables, or `IndexOutOfBounds` where their
    /// shapes differ.
    pub fn add(&self, rhs: &Self) -> (res: Result<Self, SangriaError>)
        ensures
            same_shape(self@, rhs@) ==> res is Ok && res->Ok_0@ == add_matrix(
                self@,
                rhs@,
                F::modulus(),
            ),
            !same_shape(self@, rhs@) ==> res == Err::<Self, SangriaError>(
                SangriaError::IndexOutOfBounds,
            ),
    {
        proof {
            use_type_invariant(self);
        }
        if !shapes_agree(&self.matrix, &rhs.matrix) {
            return Err(SangriaError::IndexOutOfBounds);
        }
        Ok(PLONKWitness { matrix: add_columns(&self.matrix, &rhs.matrix) })
    }

    /// The table `self + c * rhs`, or `IndexOutOfBounds` where the shapes of
    /// the two tables differ.
    pub fn fold(&self, rhs: &Self, c: &F) -> (res: Result<Self, SangriaError>)
        ensures
            same_shape(self@, rhs@) ==> res is Ok && res->Ok_0@ == fold_matrix(
                self@,
                rhs@,
                c.value(),
                F::modulus(),
            ),
            !same_shape(self@, rhs@) ==> res == Err::<Self, SangriaError>(
                SangriaError::IndexOutOfBounds,
            ),
    {
        proof {
            use_type_invariant(self);
        }
        if !shapes_agree(&self.matrix, &rhs.matrix) {
            return Err(SangriaError::IndexOutOfBounds);
        }
        Ok(PLONKWitness { matrix: fold_columns(&self.matrix, &rhs.matrix, c) })
    }
}

/// What a circuit holds, as values.
pub struct CircuitView {
    /// The selector columns, `q_L`, `q_R`, `q_O`, `q_M`, `q_C` in this order.
    pub selectors: Seq<Seq<nat>>,
    /// The permutation that encodes the copy constraints.
    pub copy_constraint: Seq<nat>,
}

/// The defining elements of a PLONK circuit: its selector columns and the
/// permutation of its copy constraints.
pub struct PLONKCircuit<F: PrimeField> {
    selectors: Vec<Vec<F>>,
    copy_constraint: Vec<F>,
}

impl<F: PrimeField> View for PLONKCircuit<F> {
    type V = CircuitView;

    closed spec fn view(&self) -> CircuitView {
        CircuitView {
            selectors: matrix_values(self.selectors@),
            copy_constraint: values(self.copy_constraint@),
        }
    }
}

impl<F: PrimeField> Clone for PLONKCircuit<F> {
    fn clone(&self) -> (r: Self)
        ensures
            r@ == self@,
    {
        PLONKCircuit {
            selectors: copy_columns(&self.selectors),
            copy_constraint: copy_elements(&self.copy_constraint),
        }
    }
}

impl<F: PrimeField> PLONKCircuit<F> {
    /// Builds a circuit from its selector columns and its permutation.
    pub fn new(selectors: Vec<Vec<F>>, copy_constraint: Vec<F>) -> (circuit: Self)
        ensures
            circuit@.selectors == matrix_values(selectors@),
            circuit@.copy_constraint == values(copy_constraint@),
    {
        PLONKCircuit { selectors, copy_constraint }
    }

    /// The selector columns.
    pub fn selectors(&self) -> (columns: Vec<Vec<F>>)
        ensures
            matrix_values(columns@) == self@.selectors,
    {
        copy_columns(&self.selectors)
    }

    /// Selector `selector_index`, or `IndexOutOfBounds` where the circuit has
    /// no such selector.
    pub fn single_selector(&self, selector_index: usize) -> (res: Result<Vec<F>, SangriaError>)
        ensures
            selector_index < self@.selectors.len() ==> res is Ok && values(res->Ok_0@)
                == self@.selectors[selector_index as int],
            selector_index >= self@.selectors.len() ==> res == Err::<Vec<F>, SangriaError>(
                SangriaError::IndexOutOfBounds,
            ),
    {
        column_of(&self.selectors, selector_index)
    }

    /// The permutation that encodes the copy constraints.
    pub fn copy_constraint(&self) -> (permutation: Vec<F>)
        ensures
            values(permutation@) == self@.copy_constraint,
    {
        copy_elements(&self.copy_constraint)
    }

    /// Appends the circuit to a transcript: the selector table, then the
    /// permutation.
    pub fn to_sponge_field_elements(&self, dest: &mut Vec<F>)
        ensures
            values(final(dest)@) == values(old(dest)@) + circuit_encoding(self@, F::modulus()),
    {
        append_matrix(dest, &self.selectors);
        append_vector(dest, &self.copy_constraint);
        assert(values(dest@) =~= values(old(dest)@) + circuit_encoding(self@, F::modulus()));
    }
}

/// A circuit as it enters a transcript: the selector table, then the
/// permutation.
pub open spec fn circuit_encoding(c: CircuitView, p: nat) -> Seq<nat> {
    matrix_encoding(c.selectors, p) + vector_encoding(c.copy_constraint, p)
}

/// What a relaxed instance holds, as values.
pub struct RelaxedInstanceView<S, W> {
    /// The public rows of the trace.
    pub plonk_instance: Seq<Seq<nat>>,
    /// The scaling factor `u`.
    pub scaling_factor: nat,
    /// The commitment to the slack vector.
    pub slack_commitment: S,
    /// The commitments to the witness columns, in column order.
    pub witness_commitments: Seq<W>,
}

/// The group values of a vector of witness commitments.
pub open spec fn witness_group_values<F: PrimeField, Comm: FoldingCommitmentConfig<F>>(
    v: Seq<WitnessCommitment<F, Comm>>,
) -> Seq<WitnessGroup<F, Comm>> {
    Seq::new(v.len(), |i: int| Comm::CommitmentWitness::group_value(&v[i]))
}

/// A committed relaxed PLONK instance.
pub struct RelaxedPLONKInstance<F: PrimeField, Comm: FoldingCommitmentConfig<F>> {
    plonk_instance: PLONKInstance<F>,
    scaling_factor: F,
    slack_commitment: SlackCommitment<F, Comm>,
    witness_commitments: Vec<WitnessCommitment<F, Comm>>,
}

impl<F: PrimeField, Comm: FoldingCommitmentConfig<F>> View for RelaxedPLONKInstance<F, Comm> {
    type V = RelaxedInstanceView<SlackGroup<F, Comm>, WitnessGroup<F, Comm>>;

    closed spec fn view(&self) -> Self::V {
        RelaxedInstanceView {
            plonk_instance: self.plonk_instance@,
            scaling_factor: self.scaling_factor.value(),
            slack_commitment: Comm::CommitmentSlack::group_value(&self.slack_commitment),
            witness_commitments: witness_group_values::<F, Comm>(self.witness_commitments@),
        }
    }
}

impl<F: PrimeField, Comm: FoldingCommitmentConfig<F>> Clone for RelaxedPLONKInstance<F, Comm> {
    fn clone(&self) -> (r: Self)
        ensures
            r@ == self@,
    {
        RelaxedPLONKInstance {
            plonk_instance: self.plonk_instance.clone(),
            scaling_factor: self.scaling_factor,
            slack_commitment: self.slack_commitment,
            witness_commitments: copy_elements(&self.witness_commitments),
        }
    }
}

impl<F: PrimeField, Comm: FoldingCommitmentConfig<F>> RelaxedPLONKInstance<F, Comm> {
    /// Builds a relaxed instance from its parts.
    pub fn new(
        plonk_instance: PLONKInstance<F>,
        scaling_factor: F,
        slack_commitment: SlackCommitment<F, Comm>,
        witness_commitments: Vec<WitnessCommitment<F, Comm>>,
    ) -> (instance: Self)
        ensures
            instance@.plonk_instance == plonk_instance@,
            instance@.scaling_factor == scaling_factor.value(),
            instance@.slack_commitment == Comm::CommitmentSlack::group_value(&slack_commitment),
            instance@.witness_commitments == witness_group_values::<F, Comm>(
                witness_commitments@,
            ),
    {
        RelaxedPLONKInstance {
            plonk_instance,
            scaling_factor,
            slack_commitment,
            witness_commitments,
        }
    }

    /// The PLONK instance table.
    pub fn plonk_instance(&self) -> (table: &PLONKInstance<F>)
        ensures
            table@ == self@.plonk_instance,
    {
        &self.plonk_instance
    }

    /// Column `column_index` of the PLONK instance, or `IndexOutOfBounds`
    /// where it has no such column.
    pub fn instance_column(&self, column_index: usize) -> (res: Result<Vec<F>, SangriaError>)
        ensures
            column_index < self@.plonk_instance.len() ==> res is Ok && values(res->Ok_0@)
                == self@.plonk_instance[column_index as int],
            column_index >= self@.plonk_instance.len() ==> res == Err::<Vec<F>, SangriaError>(
                SangriaError::IndexOutOfBounds,
            ),
    {
        self.plonk_instance.column(column_index)
    }

    /// Row `row_index` of the PLONK instance, or `IndexOutOfBounds` where it
    /// has no such row.
    pub fn instance_row(&self, row_index: usize) -> (res: Result<Vec<F>, SangriaError>)
        ensures
            row_index < row_count(self@.plonk_instance) ==> res is Ok && values(res->Ok_0@)
                == row_of(self@.plonk_instance, row_index as int),
            row_index >= row_count(self@.plonk_instance) ==> res == Err::<Vec<F>, SangriaError>(
                SangriaError::IndexOutOfBounds,
            ),
    {
        self.plonk_instance.row(row_index)
    }

    /// The scaling factor.
    pub fn scaling_factor(&self) -> (u: F)
        ensures
            u.value() == self@.scaling_factor,
    {
        self.scaling_factor
    }

    /// The commitment to the slack vector.
    pub fn slack_commitment(&self) -> (c: SlackCommitment<F, Comm>)
        ensures
            Comm::CommitmentSlack::group_value(&c) == self@.slack_commitment,
    {
        self.slack_commitment
    }

    /// The commitments to the witness columns.
    pub fn witness_commitments(&self) -> (all: Vec<WitnessCommitment<F, Comm>>)
        ensures
            witness_group_values::<F, Comm>(all@) == self@.witness_commitments,
    {
        copy_elements(&self.witness_commitments)
    }

    /// The commitment to witness column `column_index`, or
    /// `IndexOutOfBounds` where there is no such commitment.
    pub fn single_witness_commitment(&self, column_index: usize) -> (res: Result<
        WitnessCommitment<F, Comm>,
        SangriaError,
    >)
        ensures
            column_index < self@.witness_commitments.len() ==> res is Ok
                && Comm::CommitmentWitness::group_value(&res->Ok_0)
                == self@.witness_commitments[column_index as int],
            column_index >= self@.witness_commitments.len() ==> res == Err::<
                WitnessCommitment<F, Comm>,
                SangriaError,
            >(SangriaError::IndexOutOfBounds),
    {
        if column_index >= self.witness_commitments.len() {
            return Err(SangriaError::IndexOutOfBounds);
        }
        Ok(self.witness_commitments[column_index])
    }
}

/// The view of a relaxed instance over the two schemes of `Comm`.
pub type InstanceView<F, Comm> = RelaxedInstanceView<SlackGroup<F, Comm>, WitnessGroup<F, Comm>>;

/// The relaxed instance `a` multiplied by the field element `c`: the public
/// rows, the scaling factor and every commitment are scaled by `c`.
pub open spec fn scale_instance<F: PrimeField, Comm: FoldingCommitmentConfig<F>>(
    a: InstanceView<F, Comm>,
    c: nat,
) -> InstanceView<F, Comm> {
    RelaxedInstanceView {
        plonk_instance: scale_matrix(a.plonk_instance, c, F::modulus()),
        scaling_factor: mul_mod(c, a.scaling_factor, F::modulus()),
        slack_commitment: Comm::CommitmentSlack::scale_spec(a.slack_commitment, c),
        witness_commitments: Seq::new(
            a.witness_commitments.len(),
            |i: int| Comm::CommitmentWitness::scale_spec(a.witness_commitments[i], c),
        ),
    }
}

/// The sum of two relaxed instances: public rows and scaling factors are
/// added in the field, commitments in their groups.
pub open spec fn add_instances<F: PrimeField, Comm: FoldingCommitmentConfig<F>>(
    a: InstanceView<F, Comm>,
    b: InstanceView<F, Comm>,
) -> InstanceView<F, Comm> {
    RelaxedInstanceView {
        plonk_instance: add_matrix(a.plonk_instance, b.plonk_instance, F::modulus()),
        scaling_factor: add_mod(a.scaling_factor, b.scaling_factor, F::modulus()),
        slack_commitment: Comm::CommitmentSlack::add_spec(a.slack_commitment, b.slack_commitment),
        witness_commitments: Seq::new(
            a.witness_commitments.len(),
            |i: int|
                Comm::CommitmentWitness::add_spec(
                    a.witness_commitments[i],
                    b.witness_commitments[i],
                ),
        ),
    }
}

/// Whether two relaxed instances can be added: their public rows have one
/// shape and they hold equally many witness commitments.
pub open spec fn instances_compatible<S, W>(
    a: RelaxedInstanceView<S, W>,
    b: RelaxedInstanceView<S, W>,
) -> bool {
    &&& same_shape(a.plonk_instance, b.plonk_instance)
    &&& a.witness_commitments.len() == b.witness_commitments.len()
}

/// Whether the view is one of an instance over `F`: every entry of the
/// public rows and the scaling factor lie below the modulus, and the
/// commitments are elements of their groups.
pub open spec fn instance_well_formed<F: PrimeField, Comm: FoldingCommitmentConfig<F>>(
    x: InstanceView<F, Comm>,
) -> bool {
    &&& forall|k: int|
        0 <= k < x.plonk_instance.len() ==> reduced(#[trigger] x.plonk_instance[k], F::modulus())
    &&& x.scaling_factor < F::modulus()
    &&& Comm::CommitmentSlack::in_group(x.slack_commitment)
    &&& forall|i: int|
        0 <= i < x.witness_commitments.len() ==> Comm::CommitmentWitness::in_group(
            #[trigger] x.witness_commitments[i],
        )
}

/// Every witness commitment of `v` scaled by `c`.
fn scale_witness_commitments<F: PrimeField, Comm: FoldingCommitmentConfig<F>>(
    v: &Vec<WitnessCommitment<F, Comm>>,
    c: &F,
) -> (r: Vec<WitnessCommitment<F, Comm>>)
    ensures
        r.len() == v.len(),
        forall|i: int|
            0 <= i < v.len() ==> Comm::CommitmentWitness::group_value(#[trigger] &r@[i])
                == Comm::CommitmentWitness::scale_spec(
                Comm::CommitmentWitness::group_value(&v@[i]),
                c.value(),
            ),
{
    let mut out: Vec<WitnessCommitment<F, Comm>> = Vec::new();
    let mut i: usize = 0;
    while i < v.len()
        invariant
            i <= v.len(),
            out.len() == i,
            forall|j: int|
                0 <= j < i ==> Comm::CommitmentWitness::group_value(#[trigger] &out@[j])
                    == Comm::CommitmentWitness::scale_spec(
                    Comm::CommitmentWitness::group_value(&v@[j]),
                    c.value(),
                ),
        decreases v.len() - i,
    {
        out.push(Comm::CommitmentWitness::scale_commitment(&v[i], c));
        i += 1;
    }
    out
}

/// The pairwise sums of two equally long vectors of witness commitments.
fn add_witness_commitments<F: PrimeField, Comm: FoldingCommitmentConfig<F>>(
    a: &Vec<WitnessCommitment<F, Comm>>,
    b: &Vec<WitnessCommitment<F, Comm>>,
) -> (r: Vec<WitnessCommitment<F, Comm>>)
    requires
        a.len() == b.len(),
    ensures
        r.len() == a.len(),
        forall|i: int|
            0 <= i < a.len() ==> Comm::CommitmentWitness::group_value(#[trigger] &r@[i])
                == Comm::CommitmentWitness::add_spec(
                Comm::CommitmentWitness::group_value(&a@[i]),
                Comm::CommitmentWitness::group_value(&b@[i]),
            ),
{
    let mut out: Vec<WitnessCommitment<F, Comm>> = Vec::new();
    let mut i: usize = 0;
    while i < a.len()
        invariant
            i <= a.len(),
            a.len() == b.len(),
            out.len() == i,
            forall|j: int|
                0 <= j < i ==> Comm::CommitmentWitness::group_value(#[trigger] &out@[j])
                    == Comm::CommitmentWitness::add_spec(
                    Comm::CommitmentWitness::group_value(&a@[j]),
                    Comm::CommitmentWitness::group_value(&b@[j]),
                ),
        decreases a.len() - i,
    {
        out.push(Comm::CommitmentWitness::add_commitments(&a[i], &b[i]));
        i += 1;
    }
    out
}

impl<F: PrimeField, Comm: FoldingCommitmentConfig<F>> RelaxedPLONKInstance<F, Comm> {
    /// What an instance holds is well formed.
    pub proof fn lemma_well_formed(&self)
        ensures
            instance_well_formed::<F, Comm>(self@),
    {
        let x = self@;
        assert forall|k: int| 0 <= k < x.plonk_instance.len() implies reduced(
            #[trigger] x.plonk_instance[k],
            F::modulus(),
        ) by {
            lemma_values_reduced(self.plonk_instance.matrix@[k]@);
        }
        self.scaling_factor.lemma_canonical();
        Comm::CommitmentSlack::lemma_held_in_group(&self.slack_commitment);
        assert forall|i: int|
            0 <= i < x.witness_commitments.len() implies Comm::CommitmentWitness::in_group(
            #[trigger] x.witness_commitments[i],
        ) by {
            Comm::CommitmentWitness::lemma_held_in_group(&self.witness_commitments@[i]);
        }
    }

    /// The instance multiplied by the field element `rhs`.
    pub fn mul(&self, rhs: F) -> (product: Self)
        ensures
            product@ == scale_instance::<F, Comm>(self@, rhs.value()),
    {
        let witness_commitments = scale_witness_commitments::<F, Comm>(
            &self.witness_commitments,
            &rhs,
        );
        let product = RelaxedPLONKInstance {
            plonk_instance: self.plonk_instance.scale(&rhs),
            scaling_factor: rhs.mul(&self.scaling_factor),
            slack_commitment: Comm::CommitmentSlack::scale_commitment(
                &self.slack_commitment,
                &rhs,
            ),
            witness_commitments,
        };
        assert(product@.witness_commitments =~= scale_instance::<F, Comm>(
            self@,
            rhs.value(),
        ).witness_commitments);
        product
    }

    /// The sum of two instances, or `IndexOutOfBounds` where their shapes
    /// differ.
    pub fn add(&self, rhs: &Self) -> (res: Result<Self, SangriaError>)
        ensures
            instances_compatible(self@, rhs@) ==> res is Ok && res->Ok_0@ == add_instances::<
                F,
                Comm,
            >(self@, rhs@),
            !instances_compatible(self@, rhs@) ==> res == Err::<Self, SangriaError>(
                SangriaError::IndexOutOfBounds,
            ),
    {
        if self.witness_commitments.len() != rhs.witness_commitments.len() {
            return Err(SangriaError::IndexOutOfBounds);
        }
        let plonk_instance = match self.plonk_instance.add(&rhs.plonk_instance) {
            Ok(sum) => sum,
            Err(e) => {
                return Err(e);
            },
        };
        let witness_commitments = add_witness_commitments::<F, Comm>(
            &self.witness_commitments,
            &rhs.witness_commitments,
        );
        let sum = RelaxedPLONKInstance {
            plonk_instance,
            scaling_factor: self.scaling_factor.add(&rhs.scaling_factor),
            slack_commitment: Comm::CommitmentSlack::add_commitments(
                &self.slack_commitment,
                &rhs.slack_commitment,
            ),
            witness_commitments,
        };
        assert(sum@.witness_commitments =~= add_instances::<F, Comm>(
            self@,
            rhs@,
        ).witness_commitments);
        Ok(sum)
    }
}

/// What a relaxed witness holds, as values.
pub struct RelaxedWitnessView {
    /// The witness rows of the trace, column by column.
    pub plonk_witness: Seq<Seq<nat>>,
    /// The slack vector.
    pub slack_vector: Seq<nat>,
    /// The blinding factor of each witness column's commitment.
    pub commitment_hidings: Seq<nat>,
}

/// A committed relaxed PLONK witness.
pub struct RelaxedPLONKWitness<F: PrimeField> {
    plonk_witness: PLONKWitness<F>,
    slack_vector: Vec<F>,
    commitment_hidings: Vec<F>,
}

impl<F: PrimeField> View for RelaxedPLONKWitness<F> {
    type V = RelaxedWitnessView;

    closed spec fn view(&self) -> RelaxedWitnessView {
        RelaxedWitnessView {
            plonk_witness: self.plonk_witness@,
            slack_vector: values(self.slack_vector@),
            commitment_hidings: values(self.commitment_hidings@),
        }
    }
}

impl<F: PrimeField> Clone for RelaxedPLONKWitness<F> {
    fn clone(&self) -> (r: Self)
        ensures
            r@ == self@,
    {
        proof {
            use_type_invariant(self);
        }
        RelaxedPLONKWitness {
            plonk_witness: self.plonk_witness.clone(),
            slack_vector: copy_elements(&self.slack_vector),
            commitment_hidings: copy_elements(&self.commitment_hidings),
        }
    }
}

impl<F: PrimeField> RelaxedPLONKWitness<F> {
    #[verifier::type_invariant]
    spec fn well_formed(&self) -> bool {
        self.commitment_hidings@.len() == self.plonk_witness@.len()
    }

    /// Builds a relaxed witness from its parts; there must be one blinding
    /// factor for each witness column.
    pub fn new(
        plonk_witness: PLONKWitness<F>,
        slack_vector: Vec<F>,
        commitment_hidings: Vec<F>,
    ) -> (res: Result<Self, SangriaError>)
        ensures
            commitment_hidings.len() == plonk_witness@.len() ==> res is Ok && res->Ok_0@ == (
            RelaxedWitnessView {
                plonk_witness: plonk_witness@,
                slack_vector: values(slack_vector@),
                commitment_hidings: values(commitment_hidings@),
            }),
            commitment_hidings.len() != plonk_witness@.len() ==> res == Err::<Self, SangriaError>(
                SangriaError::IndexOutOfBounds,
            ),
    {
        if commitment_hidings.len() != plonk_witness.num_columns() {
            return Err(SangriaError::IndexOutOfBounds);
        }
        Ok(RelaxedPLONKWitness { plonk_witness, slack_vector, commitment_hidings })
    }

    /// The PLONK witness table.
    pub fn plonk_witness(&self) -> (table: &PLONKWitness<F>)
        ensures
            table@ == self@.plonk_witness,
            self@.commitment_hidings.len() == self@.plonk_witness.len(),
    {
        proof {
            use_type_invariant(self);
        }
        &self.plonk_witness
    }

    /// Column `column_index` of the PLONK witness, or `IndexOutOfBounds`
    /// where it has no such column.
    pub fn witness_column(&self, column_index: usize) -> (res: Result<Vec<F>, SangriaError>)
        ensures
            column_index < self@.plonk_witness.len() ==> res is Ok && values(res->Ok_0@)
                == self@.plonk_witness[column_index as int],
            column_index >= self@.plonk_witness.len() ==> res == Err::<Vec<F>, SangriaError>(
                SangriaError::IndexOutOfBounds,
            ),
    {
        self.plonk_witness.column(column_index)
    }

    /// Row `row_index` of the PLONK witness, or `IndexOutOfBounds` where it
    /// has no such row.
    pub fn witness_row(&self, row_index: usize) -> (res: Result<Vec<F>, SangriaError>)
        ensures
            row_index < row_count(self@.plonk_witness) ==> res is Ok && values(res->Ok_0@)
                == row_of(self@.plonk_witness, row_index as int),
            row_index >= row_count(self@.plonk_witness) ==> res == Err::<Vec<F>, SangriaError>(
                SangriaError::IndexOutOfBounds,
            ),
    {
        self.plonk_witness.row(row_index)
    }

    /// The slack vector.
    pub fn slack_vector(&self) -> (slack: Vec<F>)
        ensures
            values(slack@) == self@.slack_vector,
    {
        copy_elements(&self.slack_vector)
    }

    /// The blinding factors used when committing to the witness columns.
    pub fn hiding_randomnesses(&self) -> (hidings: Vec<F>)
        ensures
            values(hidings@) == self@.commitment_hidings,
            hidings.len() == self@.plonk_witness.len(),
    {
        proof {
            use_type_invariant(self);
        }
        copy_elements(&self.commitment_hidings)
    }

    /// Witness column `column_index` together with the blinding factor of
    /// its commitment, or `IndexOutOfBounds` where there is no such column.
    pub fn witness_column_with_rand(&self, column_index: usize) -> (res: Result<
        (Vec<F>, F),
        SangriaError,
    >)
        ensures
            column_index < self@.plonk_witness.len() ==> res is Ok && values(res->Ok_0.0@)
                == self@.plonk_witness[column_index as int] && res->Ok_0.1.value()
                == self@.commitment_hidings[column_index as int],
            column_index >= self@.plonk_witness.len() ==> res == Err::<(Vec<F>, F), SangriaError>(
                SangriaError::IndexOutOfBounds,
            ),
    {
        proof {
            use_type_invariant(self);
        }
        match self.plonk_witness.column(column_index) {
            Ok(column) => Ok((column, self.commitment_hidings[column_index])),
            Err(e) => Err(e),
        }
    }
}

/// The first `k` witness commitments as they enter a transcript, one after
/// the other.
pub open spec fn commitments_encoding<F: PrimeField, Comm: FoldingCommitmentConfig<F>>(
    v: Seq<WitnessGroup<F, Comm>>,
    k: nat,
) -> Seq<nat>
    decreases k,
{
    if k == 0 {
        Seq::empty()
    } else {
        commitments_encoding::<F, Comm>(v, (k - 1) as nat) + Comm::CommitmentWitness::encoding_spec(
            v[k - 1],
        )
    }
}

/// A relaxed instance as it enters a transcript: the public rows, the
/// scaling factor, the slack commitment, then the witness commitments with
/// their number.
pub open spec fn instance_encoding<F: PrimeField, Comm: FoldingCommitmentConfig<F>>(
    x: InstanceView<F, Comm>,
) -> Seq<nat> {
    matrix_encoding(x.plonk_instance, F::modulus()) + seq![x.scaling_factor]
        + Comm::CommitmentSlack::encoding_spec(x.slack_commitment) + seq![
        count_mod(x.witness_commitments.len(), F::modulus()),
    ] + commitments_encoding::<F, Comm>(x.witness_commitments, x.witness_commitments.len())
}

impl<F: PrimeField, Comm: FoldingCommitmentConfig<F>> RelaxedPLONKInstance<F, Comm> {
    /// Appends the instance to a transcript.
    pub fn to_sponge_field_elements(&self, dest: &mut Vec<F>)
        ensures
            values(final(dest)@) == values(old(dest)@) + instance_encoding::<F, Comm>(self@),
    {
        self.plonk_instance.to_sponge_field_elements(dest);
        append_element(dest, self.scaling_factor);
        let slack = Comm::CommitmentSlack::commitment_to_field_elements(&self.slack_commitment);
        append_elements(dest, &slack);
        append_count(dest, self.witness_commitments.len());
        let ghost start = values(dest@);
        let ghost groups = witness_group_values::<F, Comm>(self.witness_commitments@);
        let mut k: usize = 0;
        while k < self.witness_commitments.len()
            invariant
                k <= self.witness_commitments.len(),
                groups == witness_group_values::<F, Comm>(self.witness_commitments@),
                values(dest@) == start + commitments_encoding::<F, Comm>(groups, k as nat),
            decreases self.witness_commitments.len() - k,
        {
            let encoded = Comm::CommitmentWitness::commitment_to_field_elements(
                &self.witness_commitments[k],
            );
            append_elements(dest, &encoded);
            k += 1;
            proof {
                assert(groups[k - 1] == Comm::CommitmentWitness::group_value(
                    &self.witness_commitments@[k - 1],
                ));
                assert(values(dest@) =~= start + commitments_encoding::<F, Comm>(
                    groups,
                    k as nat,
                ));
            }
        }
        assert(values(dest@) =~= values(old(dest)@) + instance_encoding::<F, Comm>(self@));
    }
}

impl<F: PrimeField, Comm: FoldingCommitmentConfig<F>> RelaxedPLONKInstance<F, Comm> {
    /// Whether the two instances are the same: the same public rows, the
    /// same scaling factor and the same commitments.
    pub fn same_as(&self, other: &Self) -> (same: bool)
        ensures
            same == (self@ == other@),
    {
        if !self.plonk_instance.same_as(&other.plonk_instance) {
            return false;
        }
        if !self.scaling_factor.equals(&other.scaling_factor) {
            return false;
        }
        if !Comm::CommitmentSlack::same_commitment(
            &self.slack_commitment,
            &other.slack_commitment,
        ) {
            return false;
        }
        if self.witness_commitments.len() != other.witness_commitments.len() {
            assert(self@.witness_commitments.len() != other@.witness_commitments.len());
            return false;
        }
        let mut i: usize = 0;
        while i < self.witness_commitments.len()
            invariant
                i <= self.witness_commitments.len(),
                self.witness_commitments.len() == other.witness_commitments.len(),
                forall|j: int|
                    0 <= j < i ==> Comm::CommitmentWitness::group_value(
                        #[trigger] &self.witness_commitments@[j],
                    ) == Comm::CommitmentWitness::group_value(&other.witness_commitments@[j]),
            decreases self.witness_commitments.len() - i,
        {
            if !Comm::CommitmentWitness::same_commitment(
                &self.witness_commitments[i],
                &other.witness_commitments[i],
            ) {
                assert(self@.witness_commitments[i as int] != other@.witness_commitments[i as int]);
                return false;
            }
            i += 1;
        }
        assert(self@.witness_commitments =~= other@.witness_commitments);
        true
    }
}

impl<F: PrimeField> RelaxedPLONKWitness<F> {
    /// What a witness holds lies below the modulus, entry by entry.
    pub proof fn lemma_reduced(&self)
        ensures
            forall|k: int|
                0 <= k < self@.plonk_witness.len() ==> reduced(
                    #[trigger] self@.plonk_witness[k],
                    F::modulus(),
                ),
            reduced(self@.slack_vector, F::modulus()),
            reduced(self@.commitment_hidings, F::modulus()),
    {
        assert forall|k: int| 0 <= k < self@.plonk_witness.len() implies reduced(
            #[trigger] self@.plonk_witness[k],
            F::modulus(),
        ) by {
            lemma_values_reduced(self.plonk_witness.matrix@[k]@);
        }
        lemma_values_reduced(self.slack_vector@);
        lemma_values_reduced(self.commitment_hidings@);
    }

    /// Whether the two witnesses are the same: the same table, the same
    /// slack vector and the same blinding factors.
    pub fn same_as(&self, other: &Self) -> (same: bool)
        ensures
            same == (self@ == other@),
    {
        let same_table = self.plonk_witness.same_as(&other.plonk_witness);
        let same_slack = same_elements(&self.slack_vector, &other.slack_vector);
        let same_hidings = same_elements(&self.commitment_hidings, &other.commitment_hidings);
        same_table && same_slack && same_hidings
    }
}

} // verus!
