use sangria::errors::SangriaError;
use sangria::field::{PrimeField, Zp};
use sangria::linear_commitment::{LinearCommitmentConfig, LinearCommitmentScheme};
use sangria::vector_commitment::HomomorphicCommitmentScheme;
use sangria::relaxed_plonk::{
    PLONKCircuit, PLONKInstance, PLONKWitness, RelaxedPLONKInstance, RelaxedPLONKWitness,
    CONSTANT_SELECTOR_INDEX, LEFT_SELECTOR_INDEX, MULTIPLICATION_SELECTOR_INDEX,
    OUTPUT_SELECTOR_INDEX, RIGHT_SELECTOR_INDEX,
};

type F97 = Zp<97>;
type Config = LinearCommitmentConfig<F97>;

fn elements(xs: &[u64]) -> Vec<F97> {
    xs.iter().map(|x| F97::from_u64(*x)).collect()
}

fn numbers(xs: &[F97]) -> Vec<u64> {
    xs.iter().map(|x| x.to_u64()).collect()
}

fn table(columns: &[&[u64]]) -> Vec<Vec<F97>> {
    columns.iter().map(|c| elements(c)).collect()
}

fn instance(
    columns: &[&[u64]],
    scaling: u64,
    slack: u64,
    commitments: &[u64],
) -> RelaxedPLONKInstance<F97, Config> {
    RelaxedPLONKInstance::new(
        PLONKInstance::new(table(columns)).unwrap(),
        F97::from_u64(scaling),
        F97::from_u64(slack),
        elements(commitments),
    )
}

#[test]
fn selector_indices_are_fixed() {
    assert_eq!(LEFT_SELECTOR_INDEX, 0);
    assert_eq!(RIGHT_SELECTOR_INDEX, 1);
    assert_eq!(OUTPUT_SELECTOR_INDEX, 2);
    assert_eq!(MULTIPLICATION_SELECTOR_INDEX, 3);
    assert_eq!(CONSTANT_SELECTOR_INDEX, 4);
}

#[test]
fn column_fails_exactly_from_the_number_of_columns_on() {
    let instance = PLONKInstance::new(table(&[&[1, 2], &[3, 4], &[5, 6]])).unwrap();
    assert_eq!(instance.num_columns(), 3);
    assert_eq!(numbers(&instance.column(0).unwrap()), vec![1, 2]);
    assert_eq!(numbers(&instance.column(2).unwrap()), vec![5, 6]);
    assert_eq!(instance.column(3).err(), Some(SangriaError::IndexOutOfBounds));
    assert_eq!(instance.column(4).err(), Some(SangriaError::IndexOutOfBounds));
    assert_eq!(instance.column(usize::MAX).err(), Some(SangriaError::IndexOutOfBounds));

    let witness = PLONKWitness::new(table(&[&[7, 8, 9]])).unwrap();
    assert_eq!(numbers(&witness.column(0).unwrap()), vec![7, 8, 9]);
    assert_eq!(witness.column(1).err(), Some(SangriaError::IndexOutOfBounds));
    assert_eq!(witness.column(2).err(), Some(SangriaError::IndexOutOfBounds));
}

#[test]
fn row_fails_exactly_from_the_number_of_rows_on() {
    let instance = PLONKInstance::new(table(&[&[1, 2], &[3, 4], &[5, 6]])).unwrap();
    assert_eq!(instance.num_rows(), 2);
    assert_eq!(numbers(&instance.row(0).unwrap()), vec![1, 3, 5]);
    assert_eq!(numbers(&instance.row(1).unwrap()), vec![2, 4, 6]);
    assert_eq!(instance.row(2).err(), Some(SangriaError::IndexOutOfBounds));
    assert_eq!(instance.row(3).err(), Some(SangriaError::IndexOutOfBounds));

    let witness = PLONKWitness::new(table(&[&[7, 8, 9]])).unwrap();
    assert_eq!(numbers(&witness.row(2).unwrap()), vec![9]);
    assert_eq!(witness.row(3).err(), Some(SangriaError::IndexOutOfBounds));
}

#[test]
fn a_table_without_columns_or_rows_has_no_valid_position() {
    let empty = PLONKInstance::new(table(&[])).unwrap();
    assert_eq!(empty.num_columns(), 0);
    assert_eq!(empty.num_rows(), 0);
    assert_eq!(empty.column(0).err(), Some(SangriaError::IndexOutOfBounds));
    assert_eq!(empty.row(0).err(), Some(SangriaError::IndexOutOfBounds));

    let no_rows = PLONKWitness::new(table(&[&[], &[]])).unwrap();
    assert_eq!(no_rows.num_columns(), 2);
    assert_eq!(no_rows.num_rows(), 0);
    assert_eq!(numbers(&no_rows.column(1).unwrap()), Vec::<u64>::new());
    assert_eq!(no_rows.row(0).err(), Some(SangriaError::IndexOutOfBounds));
}

#[test]
fn columns_of_unequal_length_make_no_table() {
    assert_eq!(
        PLONKInstance::new(table(&[&[1, 2], &[3]])).err(),
        Some(SangriaError::IndexOutOfBounds)
    );
    assert_eq!(
        PLONKWitness::new(table(&[&[1], &[2], &[3, 4]])).err(),
        Some(SangriaError::IndexOutOfBounds)
    );
    assert!(PLONKWitness::new(table(&[&[1], &[2], &[3]])).is_ok());
}

#[test]
fn single_selector_fails_exactly_from_the_number_of_selectors_on() {
    let circuit = PLONKCircuit::new(table(&[&[1, 0], &[0, 1], &[96, 96]]), elements(&[4, 2]));
    assert_eq!(numbers(&circuit.single_selector(2).unwrap()), vec![96, 96]);
    assert_eq!(circuit.single_selector(3).err(), Some(SangriaError::IndexOutOfBounds));
    assert_eq!(circuit.single_selector(4).err(), Some(SangriaError::IndexOutOfBounds));
    assert_eq!(circuit.selectors().len(), 3);
    assert_eq!(numbers(&circuit.selectors()[1]), vec![0, 1]);
    assert_eq!(numbers(&circuit.copy_constraint()), vec![4, 2]);
    let copy = circuit.clone();
    assert_eq!(numbers(&copy.single_selector(0).unwrap()), vec![1, 0]);
}

#[test]
fn relaxed_instance_hands_out_what_it_holds() {
    let x = instance(&[&[1, 2], &[3, 4]], 7, 11, &[20, 30, 40]);
    assert_eq!(x.scaling_factor().to_u64(), 7);
    assert_eq!(x.slack_commitment().to_u64(), 11);
    assert_eq!(numbers(&x.witness_commitments()), vec![20, 30, 40]);
    assert_eq!(numbers(&x.instance_column(1).unwrap()), vec![3, 4]);
    assert_eq!(x.instance_column(2).err(), Some(SangriaError::IndexOutOfBounds));
    assert_eq!(numbers(&x.instance_row(1).unwrap()), vec![2, 4]);
    assert_eq!(x.instance_row(2).err(), Some(SangriaError::IndexOutOfBounds));
    assert_eq!(x.single_witness_commitment(0).unwrap().to_u64(), 20);
    assert_eq!(x.single_witness_commitment(2).unwrap().to_u64(), 40);
    assert_eq!(x.single_witness_commitment(3).err(), Some(SangriaError::IndexOutOfBounds));
    assert_eq!(x.single_witness_commitment(4).err(), Some(SangriaError::IndexOutOfBounds));
    assert!(x.clone().same_as(&x));
    assert_eq!(x.plonk_instance().num_rows(), 2);
}

#[test]
fn relaxed_witness_keeps_column_and_blinding_together() {
    let w = RelaxedPLONKWitness::new(
        PLONKWitness::new(table(&[&[1, 2, 3], &[4, 5, 6]])).unwrap(),
        elements(&[0, 9, 0]),
        elements(&[71, 72]),
    )
    .unwrap();
    assert_eq!(numbers(&w.slack_vector()), vec![0, 9, 0]);
    assert_eq!(numbers(&w.hiding_randomnesses()), vec![71, 72]);
    assert_eq!(numbers(&w.witness_column(1).unwrap()), vec![4, 5, 6]);
    assert_eq!(w.witness_column(2).err(), Some(SangriaError::IndexOutOfBounds));
    assert_eq!(numbers(&w.witness_row(2).unwrap()), vec![3, 6]);
    assert_eq!(w.witness_row(3).err(), Some(SangriaError::IndexOutOfBounds));
    let (column, blinding) = w.witness_column_with_rand(1).unwrap();
    assert_eq!(numbers(&column), vec![4, 5, 6]);
    assert_eq!(blinding.to_u64(), 72);
    assert_eq!(w.witness_column_with_rand(2).err(), Some(SangriaError::IndexOutOfBounds));
    assert_eq!(w.witness_column_with_rand(3).err(), Some(SangriaError::IndexOutOfBounds));
    assert!(w.clone().same_as(&w));
    assert_eq!(w.plonk_witness().num_columns(), 2);
}

#[test]
fn relaxed_witness_needs_one_blinding_for_each_column() {
    let table_of_two = || PLONKWitness::new(table(&[&[1], &[2]])).unwrap();
    assert_eq!(
        RelaxedPLONKWitness::new(table_of_two(), elements(&[0]), elements(&[5])).err(),
        Some(SangriaError::IndexOutOfBounds)
    );
    assert_eq!(
        RelaxedPLONKWitness::new(table_of_two(), elements(&[0]), elements(&[5, 6, 7])).err(),
        Some(SangriaError::IndexOutOfBounds)
    );
    assert!(RelaxedPLONKWitness::new(table_of_two(), elements(&[]), elements(&[5, 6])).is_ok());
}

#[test]
fn tables_scale_add_and_fold() {
    let a = PLONKInstance::new(table(&[&[1, 2], &[96, 50]])).unwrap();
    let b = PLONKInstance::new(table(&[&[10, 20], &[1, 60]])).unwrap();
    let scaled = a.scale(&F97::from_u64(3));
    assert_eq!(numbers(&scaled.column(0).unwrap()), vec![3, 6]);
    assert_eq!(numbers(&scaled.column(1).unwrap()), vec![94, 53]);
    let sum = a.add(&b).unwrap();
    assert_eq!(numbers(&sum.column(0).unwrap()), vec![11, 22]);
    assert_eq!(numbers(&sum.column(1).unwrap()), vec![0, 13]);
    let folded = a.fold(&b, &F97::from_u64(5)).unwrap();
    assert_eq!(numbers(&folded.column(0).unwrap()), vec![51, 5]);
    assert_eq!(numbers(&folded.column(1).unwrap()), vec![4, 59]);
    assert!(a.same_shape_as(&b));
    assert!(!a.same_as(&b));

    let narrow = PLONKInstance::new(table(&[&[1, 2]])).unwrap();
    let short = PLONKInstance::new(table(&[&[1], &[2]])).unwrap();
    assert!(!a.same_shape_as(&narrow));
    assert_eq!(a.add(&narrow).err(), Some(SangriaError::IndexOutOfBounds));
    assert_eq!(a.add(&short).err(), Some(SangriaError::IndexOutOfBounds));
    assert_eq!(a.fold(&short, &F97::from_u64(1)).err(), Some(SangriaError::IndexOutOfBounds));
}

#[test]
fn instance_multiplication_scales_every_part() {
    let x = instance(&[&[1, 2], &[3, 4]], 7, 11, &[20, 30]);
    let product = x.mul(F97::from_u64(10));
    assert_eq!(numbers(&product.instance_column(0).unwrap()), vec![10, 20]);
    assert_eq!(numbers(&product.instance_column(1).unwrap()), vec![30, 40]);
    assert_eq!(product.scaling_factor().to_u64(), 70);
    assert_eq!(product.slack_commitment().to_u64(), 13);
    assert_eq!(numbers(&product.witness_commitments()), vec![6, 9]);
}

#[test]
fn instance_addition_adds_every_part() {
    let x = instance(&[&[1, 2], &[3, 4]], 7, 11, &[20, 30]);
    let y = instance(&[&[96, 5], &[0, 94]], 95, 90, &[80, 1]);
    let sum = x.add(&y).unwrap();
    assert_eq!(numbers(&sum.instance_column(0).unwrap()), vec![0, 7]);
    assert_eq!(numbers(&sum.instance_column(1).unwrap()), vec![3, 1]);
    assert_eq!(sum.scaling_factor().to_u64(), 5);
    assert_eq!(sum.slack_commitment().to_u64(), 4);
    assert_eq!(numbers(&sum.witness_commitments()), vec![3, 31]);
}

#[test]
fn instance_addition_rejects_instances_of_other_shapes() {
    let x = instance(&[&[1, 2], &[3, 4]], 7, 11, &[20, 30]);
    let fewer_commitments = instance(&[&[1, 2], &[3, 4]], 7, 11, &[20]);
    let fewer_rows = instance(&[&[1], &[3]], 7, 11, &[20, 30]);
    let fewer_columns = instance(&[&[1, 2]], 7, 11, &[20, 30]);
    assert_eq!(x.add(&fewer_commitments).err(), Some(SangriaError::IndexOutOfBounds));
    assert_eq!(fewer_commitments.add(&x).err(), Some(SangriaError::IndexOutOfBounds));
    assert_eq!(x.add(&fewer_rows).err(), Some(SangriaError::IndexOutOfBounds));
    assert_eq!(x.add(&fewer_columns).err(), Some(SangriaError::IndexOutOfBounds));
}

#[test]
fn instance_addition_commutes() {
    let x = instance(&[&[1, 2], &[3, 4]], 7, 11, &[20, 30]);
    let y = instance(&[&[96, 5], &[0, 94]], 95, 90, &[80, 1]);
    assert!(x.add(&y).unwrap().same_as(&y.add(&x).unwrap()));
}

#[test]
fn instance_multiplication_distributes_over_field_addition() {
    let x = instance(&[&[1, 2], &[3, 4]], 7, 11, &[20, 30]);
    for (c1, c2) in [(0u64, 0u64), (1, 96), (40, 70), (96, 96), (13, 0)] {
        let (c1, c2) = (F97::from_u64(c1), F97::from_u64(c2));
        let left = x.mul(c1.add(&c2));
        let right = x.mul(c1).add(&x.mul(c2)).unwrap();
        assert!(left.same_as(&right));
    }
}

#[test]
fn error_has_its_message() {
    assert_eq!(SangriaError::IndexOutOfBounds.message(), "Index is out of bounds");
}

#[test]
fn instance_multiplication_by_one_changes_nothing() {
    for x in [
        instance(&[&[1, 2], &[3, 4]], 7, 11, &[20, 30]),
        instance(&[&[96, 0], &[0, 96]], 96, 0, &[96, 0, 1]),
        instance(&[], 0, 96, &[]),
    ] {
        let product = x.clone().mul(F97::from_u64(1));
        assert!(product.same_as(&x));
        assert_eq!(product.scaling_factor().to_u64(), x.scaling_factor().to_u64());
        assert_eq!(product.slack_commitment().to_u64(), x.slack_commitment().to_u64());
        assert_eq!(numbers(&product.witness_commitments()), numbers(&x.witness_commitments()));
    }
}

#[test]
fn instance_multiplication_by_zero_gives_the_identity_everywhere() {
    let zero = LinearCommitmentScheme::<F97>::zero_commitment();
    assert_eq!(zero.to_u64(), 0);
    let x = instance(&[&[1, 2], &[3, 4]], 7, 11, &[20, 30]);
    let product = x.mul(F97::from_u64(0));
    assert_eq!(product.scaling_factor().to_u64(), 0);
    assert!(LinearCommitmentScheme::<F97>::same_commitment(&product.slack_commitment(), &zero));
    assert_eq!(product.witness_commitments().len(), 2);
    for commitment in product.witness_commitments() {
        assert!(LinearCommitmentScheme::<F97>::same_commitment(&commitment, &zero));
    }
    assert_eq!(numbers(&product.instance_column(0).unwrap()), vec![0, 0]);
    assert_eq!(numbers(&product.instance_column(1).unwrap()), vec![0, 0]);
    // adding the zero instance changes nothing
    assert!(x.add(&product).unwrap().same_as(&x));
}
