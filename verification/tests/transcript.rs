use ark_ff::PrimeField as ArkPrimeField;
use ark_sponge::poseidon::{PoseidonParameters as ArkParameters, PoseidonSponge as ArkSponge};
use ark_sponge::{CryptographicSponge, FieldBasedCryptographicSponge as ArkFieldSponge};
use sangria::errors::SangriaError;
use sangria::field::{PrimeField, Zp};
use sangria::pasta::{PallasScalar, PoseidonSponge, VestaScalar};
use sangria::relaxed_plonk::{PLONKCircuit, PLONKInstance};
use sangria::transcript::{
    append_bytes, append_count, append_element, append_elements, append_matrix, append_vector,
    FieldBasedCryptographicSponge, PoseidonParameters, POSEIDON_WIDTH,
};

type F97 = Zp<97>;

fn elements(xs: &[u64]) -> Vec<F97> {
    xs.iter().map(|x| F97::from_u64(*x)).collect()
}

fn numbers(xs: &[F97]) -> Vec<u64> {
    xs.iter().map(|x| x.to_u64()).collect()
}

fn rows<F: PrimeField>(count: u64, offset: u64) -> Vec<Vec<F>> {
    (0..count)
        .map(|i| (0..3).map(|j| F::from_u64(offset + 7 * i + j)).collect())
        .collect()
}

fn constants<F: PrimeField>() -> PoseidonParameters<F> {
    PoseidonParameters::new(8, 4, 5, rows(3, 2), rows(12, 100)).unwrap()
}

#[test]
fn vectors_enter_a_transcript_with_their_length() {
    let mut transcript = elements(&[42]);
    append_vector(&mut transcript, &elements(&[5, 6, 7]));
    assert_eq!(numbers(&transcript), vec![42, 3, 5, 6, 7]);
    append_vector(&mut transcript, &elements(&[]));
    assert_eq!(numbers(&transcript), vec![42, 3, 5, 6, 7, 0]);
    append_elements(&mut transcript, &elements(&[8, 9]));
    append_element(&mut transcript, F97::from_u64(1));
    append_count(&mut transcript, 100);
    assert_eq!(numbers(&transcript), vec![42, 3, 5, 6, 7, 0, 8, 9, 1, 3]);
}

#[test]
fn tables_enter_a_transcript_column_by_column() {
    let mut transcript: Vec<F97> = Vec::new();
    append_matrix(&mut transcript, &vec![elements(&[1, 2]), elements(&[]), elements(&[3])]);
    assert_eq!(numbers(&transcript), vec![3, 2, 1, 2, 0, 1, 3]);

    let mut by_method: Vec<F97> = Vec::new();
    PLONKInstance::new(vec![elements(&[1, 2]), elements(&[3, 4])])
        .unwrap()
        .to_sponge_field_elements(&mut by_method);
    assert_eq!(numbers(&by_method), vec![2, 2, 1, 2, 2, 3, 4]);
}

#[test]
fn bytes_enter_a_transcript_one_element_each() {
    let mut transcript: Vec<F97> = Vec::new();
    append_bytes(&mut transcript, &vec![0u8, 96, 97, 255]);
    assert_eq!(numbers(&transcript), vec![4, 0, 96, 0, 61]);
}

#[test]
fn a_circuit_enters_a_transcript_selectors_first() {
    let circuit = PLONKCircuit::new(vec![elements(&[1, 2]), elements(&[3, 4])], elements(&[9]));
    let mut transcript = elements(&[50]);
    circuit.to_sponge_field_elements(&mut transcript);
    assert_eq!(numbers(&transcript), vec![50, 2, 2, 1, 2, 2, 3, 4, 1, 9]);
}

#[test]
fn poseidon_constants_must_have_the_shape_of_the_sponge() {
    assert_eq!(POSEIDON_WIDTH, 3);
    let ok = PoseidonParameters::<F97>::new(8, 4, 5, rows(3, 2), rows(12, 100)).unwrap();
    assert_eq!(ok.full_rounds(), 8);
    assert_eq!(ok.partial_rounds(), 4);
    assert_eq!(ok.alpha(), 5);
    assert_eq!(numbers(&ok.mds()[1]), vec![9, 10, 11]);
    assert_eq!(numbers(&ok.ark()[11]), vec![80, 81, 82]);
    assert_eq!(ok.clone().ark().len(), 12);

    let too_few_keys = PoseidonParameters::<F97>::new(8, 4, 5, rows(3, 2), rows(11, 100));
    assert_eq!(too_few_keys.err(), Some(SangriaError::IndexOutOfBounds));
    let too_many_keys = PoseidonParameters::<F97>::new(8, 4, 5, rows(3, 2), rows(13, 100));
    assert_eq!(too_many_keys.err(), Some(SangriaError::IndexOutOfBounds));
    let small_mds = PoseidonParameters::<F97>::new(8, 4, 5, rows(2, 2), rows(12, 100));
    assert_eq!(small_mds.err(), Some(SangriaError::IndexOutOfBounds));
    let mut ragged = rows::<F97>(3, 2);
    ragged[2].pop();
    let ragged_mds = PoseidonParameters::<F97>::new(8, 4, 5, ragged, rows(12, 100));
    assert_eq!(ragged_mds.err(), Some(SangriaError::IndexOutOfBounds));
    let mut wide = rows::<F97>(12, 100);
    wide[0].push(F97::from_u64(1));
    let wide_key = PoseidonParameters::<F97>::new(8, 4, 5, rows(3, 2), wide);
    assert_eq!(wide_key.err(), Some(SangriaError::IndexOutOfBounds));
    let overflow = PoseidonParameters::<F97>::new(u32::MAX, 1, 5, rows(3, 2), rows(0, 100));
    assert_eq!(overflow.err(), Some(SangriaError::IndexOutOfBounds));
    let no_rounds = PoseidonParameters::<F97>::new(0, 0, 5, rows(3, 2), rows(0, 100));
    assert!(no_rounds.is_ok());
}

fn ark_rows<F: ArkPrimeField>(count: u64, offset: u64) -> Vec<Vec<F>> {
    (0..count)
        .map(|i| (0..3).map(|j| F::from(offset + 7 * i + j)).collect())
        .collect()
}

#[test]
fn pallas_sponge_squeezes_what_ark_sponge_squeezes() {
    let absorbed: Vec<u64> = vec![1, 2, 3, 4, 5];
    let ours = PoseidonSponge::<PallasScalar>::squeeze_after_absorbing(
        &constants(),
        &absorbed.iter().map(|x| PallasScalar::from_u64(*x)).collect(),
    );
    let parameters = ArkParameters::<ark_pallas::Fr>::new(8, 4, 5, ark_rows(3, 2), ark_rows(12, 100));
    let mut sponge = ArkSponge::new(&parameters);
    for x in &absorbed {
        sponge.absorb(&ark_pallas::Fr::from(*x));
    }
    let theirs = sponge.squeeze_native_field_elements(1)[0];
    assert_eq!(ours.to_limbs(), theirs.into_repr().0);
    assert_ne!(ours.to_limbs(), [1, 0, 0, 0]);
}

#[test]
fn vesta_sponge_squeezes_what_ark_sponge_squeezes() {
    let absorbed: Vec<u64> = vec![9, 8, 7];
    let ours = PoseidonSponge::<VestaScalar>::squeeze_after_absorbing(
        &constants(),
        &absorbed.iter().map(|x| VestaScalar::from_u64(*x)).collect(),
    );
    let parameters = ArkParameters::<ark_vesta::Fr>::new(8, 4, 5, ark_rows(3, 2), ark_rows(12, 100));
    let mut sponge = ArkSponge::new(&parameters);
    sponge.absorb(&absorbed.iter().map(|x| ark_vesta::Fr::from(*x)).collect::<Vec<_>>());
    let theirs = sponge.squeeze_native_field_elements(1)[0];
    assert_eq!(ours.to_limbs(), theirs.into_repr().0);
}

#[test]
fn sponge_depends_on_what_it_absorbed_and_on_its_constants() {
    let squeeze = |parameters: &PoseidonParameters<PallasScalar>, xs: &[u64]| {
        PoseidonSponge::<PallasScalar>::squeeze_after_absorbing(
            parameters,
            &xs.iter().map(|x| PallasScalar::from_u64(*x)).collect(),
        )
        .to_limbs()
    };
    let base = constants::<PallasScalar>();
    assert_eq!(squeeze(&base, &[1, 2, 3]), squeeze(&base, &[1, 2, 3]));
    assert_ne!(squeeze(&base, &[1, 2, 3]), squeeze(&base, &[1, 2, 4]));
    assert_ne!(squeeze(&base, &[1, 2, 3]), squeeze(&base, &[1, 2]));
    let other = PoseidonParameters::new(8, 4, 5, rows(3, 3), rows(12, 100)).unwrap();
    assert_ne!(squeeze(&base, &[1, 2, 3]), squeeze(&other, &[1, 2, 3]));
    let other_alpha = PoseidonParameters::new(8, 4, 3, rows(3, 2), rows(12, 100)).unwrap();
    assert_ne!(squeeze(&base, &[1, 2, 3]), squeeze(&other_alpha, &[1, 2, 3]));
}

#[test]
fn encodings_tell_tables_of_other_shapes_apart() {
    let encode = |columns: Vec<Vec<F97>>| {
        let mut transcript: Vec<F97> = Vec::new();
        append_matrix(&mut transcript, &columns);
        numbers(&transcript)
    };
    // the same entries in the same order, cut into columns in three ways
    let a = encode(vec![elements(&[1, 2]), elements(&[3])]);
    let b = encode(vec![elements(&[1]), elements(&[2, 3])]);
    let c = encode(vec![elements(&[1, 2, 3])]);
    assert_eq!(a, vec![2, 2, 1, 2, 1, 3]);
    assert_eq!(b, vec![2, 1, 1, 2, 2, 3]);
    assert_eq!(c, vec![1, 3, 1, 2, 3]);
    assert_ne!(encode(vec![]), encode(vec![elements(&[])]));
    assert_ne!(encode(vec![elements(&[]), elements(&[0])]), encode(vec![elements(&[0]), elements(&[])]));
}
