use sangria::errors::SangriaError;
use sangria::field::{PrimeField, Zp};
use sangria::linear_commitment::{LinearCommitmentKey, LinearCommitmentScheme};
use sangria::modular::fold_elements;
use sangria::pasta::PallasScalar;
use sangria::vector_commitment::HomomorphicCommitmentScheme;

type F97 = Zp<97>;
type Scheme = LinearCommitmentScheme<F97>;

fn elements(xs: &[u64]) -> Vec<F97> {
    xs.iter().map(|x| F97::from_u64(*x)).collect()
}

fn key() -> LinearCommitmentKey<F97> {
    LinearCommitmentKey::new(elements(&[3, 5, 7, 11]), F97::from_u64(13))
}

#[test]
fn commit_is_the_inner_product_plus_the_blinding() {
    // 3*1 + 5*2 + 7*3 + 11*4 + 13*2 = 104
    let c = Scheme::commit(&key(), &elements(&[1, 2, 3, 4]), F97::from_u64(2)).unwrap();
    assert_eq!(c.to_u64(), 7);
    let zero = Scheme::commit(&key(), &elements(&[0, 0, 0, 0]), F97::from_u64(0)).unwrap();
    assert_eq!(zero.to_u64(), 0);
    let empty_key = LinearCommitmentKey::new(elements(&[]), F97::from_u64(13));
    assert_eq!(Scheme::commit(&empty_key, &elements(&[]), F97::from_u64(3)).unwrap().to_u64(), 39);
}

#[test]
fn commit_fails_exactly_on_another_length() {
    assert_eq!(
        Scheme::commit(&key(), &elements(&[1, 2, 3]), F97::from_u64(2)).err(),
        Some(SangriaError::IndexOutOfBounds)
    );
    assert_eq!(
        Scheme::commit(&key(), &elements(&[1, 2, 3, 4, 5]), F97::from_u64(2)).err(),
        Some(SangriaError::IndexOutOfBounds)
    );
    assert_eq!(
        Scheme::commit(&key(), &elements(&[]), F97::from_u64(2)).err(),
        Some(SangriaError::IndexOutOfBounds)
    );
    assert!(Scheme::commit(&key(), &elements(&[9, 9, 9, 9]), F97::from_u64(2)).is_ok());
}

#[test]
fn commitments_add_scale_and_compare() {
    let a = F97::from_u64(90);
    let b = F97::from_u64(10);
    assert_eq!(Scheme::add_commitments(&a, &b).to_u64(), 3);
    assert_eq!(Scheme::scale_commitment(&a, &b).to_u64(), 27);
    assert!(Scheme::same_commitment(&a, &F97::from_u64(187)));
    assert!(!Scheme::same_commitment(&a, &b));
    let encoding = Scheme::commitment_to_field_elements(&a);
    assert_eq!(encoding.len(), 1);
    assert_eq!(encoding[0].to_u64(), 90);
}

#[test]
fn commit_is_linear() {
    let x1 = elements(&[1, 2, 3, 4]);
    let x2 = elements(&[96, 50, 0, 7]);
    let (r1, r2, c) = (F97::from_u64(20), F97::from_u64(33), F97::from_u64(5));
    let folded =
        Scheme::commit(&key(), &fold_elements(&x1, &x2, &c).unwrap(), r1.add(&c.mul(&r2))).unwrap();
    let c1 = Scheme::commit(&key(), &x1, r1).unwrap();
    let c2 = Scheme::commit(&key(), &x2, r2).unwrap();
    let combined = Scheme::add_commitments(&c1, &Scheme::scale_commitment(&c2, &c));
    assert!(Scheme::same_commitment(&folded, &combined));
}

#[test]
fn setup_gives_a_key_of_the_length_asked_for() {
    let mut rng = ark_std::test_rng();
    for len in [0usize, 1, 4, 9] {
        let key = Scheme::setup(&mut rng, len);
        let x: Vec<F97> = (0..len).map(|i| F97::from_u64(i as u64)).collect();
        assert!(Scheme::commit(&key, &x, F97::from_u64(1)).is_ok());
        let longer: Vec<F97> = (0..len + 1).map(|i| F97::from_u64(i as u64)).collect();
        assert_eq!(
            Scheme::commit(&key, &longer, F97::from_u64(1)).err(),
            Some(SangriaError::IndexOutOfBounds)
        );
        let copy = Scheme::clone_key(&key);
        assert!(Scheme::same_commitment(
            &Scheme::commit(&key, &x, F97::from_u64(5)).unwrap(),
            &Scheme::commit(&copy, &x, F97::from_u64(5)).unwrap(),
        ));
    }
}

#[test]
fn the_scheme_runs_over_the_pallas_scalar_field() {
    type Pallas = LinearCommitmentScheme<PallasScalar>;
    let key = LinearCommitmentKey::new(
        vec![PallasScalar::from_u64(3), PallasScalar::from_u64(1 << 40)],
        PallasScalar::from_u64(13),
    );
    let x = vec![PallasScalar::from_u64(2), PallasScalar::from_u64(1 << 40)];
    let c = Pallas::commit(&key, &x, PallasScalar::from_u64(1)).unwrap();
    // 3*2 + 2^80 + 13
    assert_eq!(c.to_limbs(), [19, 1 << 16, 0, 0]);
}
