use ark_ff::PrimeField as ArkPrimeField;
use ark_poly::univariate::DensePolynomial;
use ark_poly::{Polynomial, UVPolynomial};
use ark_poly_commit::{ipa_pc, PolynomialCommitment};
use blake2::Blake2s;
use sangria::field::{PrimeField, Zp};
use sangria::pasta::{PallasGroup, PallasPoint, PallasScalar, VestaScalar};
use sangria::univariate_ipa::{
    evaluate, next_power_of_two, trim_reference_string, PCSError, UnivariateIPA, UniversalParams,
};

type F97 = Zp<97>;
type ArkworksIPA = ipa_pc::InnerProductArgPC<
    ark_bls12_377::G1Affine,
    Blake2s,
    DensePolynomial<ark_bls12_377::Fr>,
>;

#[test]
fn test_crs_generation_and_trim() {
    let mut rng = ark_std::test_rng();

    let max_degree = 10;
    let supported_degree = 8;

    let generated = ArkworksIPA::setup(max_degree, None, &mut rng).unwrap();
    let crs = UniversalParams {
        comm_key: generated.comm_key.clone(),
        h: generated.h,
        s: generated.s,
    };
    let (pk, vk) = trim_reference_string(&crs, supported_degree).unwrap();

    let arkworks_crs = ArkworksIPA::setup(max_degree, Some(1), &mut rng).unwrap();

    assert_eq!(arkworks_crs.comm_key, crs.comm_key);
    assert_eq!(arkworks_crs.h, crs.h);
    assert_eq!(arkworks_crs.s, arkworks_crs.s);

    let (arkworks_pk, arkworks_vk) =
        ArkworksIPA::trim(&arkworks_crs, supported_degree, 0, None).unwrap();

    assert_eq!(arkworks_pk.comm_key, pk.comm_key);
    assert_eq!(arkworks_pk.h, pk.h);
    assert_eq!(arkworks_pk.s, pk.s);
    assert_eq!(arkworks_pk.max_degree, pk.max_degree);

    assert_eq!(arkworks_vk.comm_key, vk.comm_key);
    assert_eq!(arkworks_vk.h, vk.h);
    assert_eq!(arkworks_vk.s, vk.s);
    assert_eq!(arkworks_vk.max_degree, vk.max_degree);
}

#[test]
fn trim_rounds_the_degree_up_and_fails_beyond_the_reference_string() {
    let crs = UniversalParams { comm_key: (0u64..16).collect::<Vec<_>>(), h: 100, s: 200 };
    assert_eq!(crs.max_degree(), Some(15));
    for (asked, held) in [(0usize, 1usize), (1, 2), (2, 4), (3, 4), (4, 8), (7, 8), (8, 16), (15, 16)] {
        let (pk, vk) = trim_reference_string(&crs, asked).unwrap();
        assert_eq!(pk.comm_key, (0u64..held as u64).collect::<Vec<_>>());
        assert_eq!((pk.h, pk.s, pk.max_degree), (100, 200, 15));
        assert_eq!(pk, vk);
    }
    assert_eq!(trim_reference_string(&crs, 16).err(), Some(PCSError::InvalidParameters));
    assert_eq!(trim_reference_string(&crs, 1000).err(), Some(PCSError::InvalidParameters));
    assert_eq!(trim_reference_string(&crs, usize::MAX).err(), Some(PCSError::InvalidParameters));
    assert_eq!(
        trim_reference_string(&crs, usize::MAX / 2 + 1).err(),
        Some(PCSError::InvalidParameters)
    );

    let short = UniversalParams { comm_key: vec![1u64, 2, 3], h: 0, s: 0 };
    assert_eq!(trim_reference_string(&short, 1).unwrap().0.comm_key, vec![1, 2]);
    assert_eq!(trim_reference_string(&short, 2).err(), Some(PCSError::InvalidParameters));
    let empty = UniversalParams { comm_key: Vec::<u64>::new(), h: 0, s: 0 };
    assert_eq!(empty.max_degree(), None);
    assert_eq!(trim_reference_string(&empty, 0).err(), Some(PCSError::InvalidParameters));
}

#[test]
fn trim_on_a_curve_of_the_cycle() {
    let point = |k: u64| PallasPoint {
        x: VestaScalar::from_u64(k),
        y: VestaScalar::from_u64(k + 1),
        infinity: false,
    };
    let crs = UniversalParams { comm_key: (0..4).map(point).collect(), h: point(10), s: point(20) };
    let (pk, vk) = UnivariateIPA::<PallasGroup>::trim(&crs, 1).unwrap();
    assert_eq!(pk.comm_key, vec![point(0), point(1)]);
    assert_eq!(vk.h, point(10));
    assert_eq!(pk.max_degree, 3);
    assert_eq!(
        UnivariateIPA::<PallasGroup>::trim(&crs, 4).err(),
        Some(PCSError::InvalidParameters)
    );
}

#[test]
fn powers_of_two_are_rounded_up_to() {
    for (n, power) in [(0usize, 1usize), (1, 1), (2, 2), (3, 4), (4, 4), (5, 8), (9, 16), (1025, 2048)] {
        assert_eq!(next_power_of_two(n), Some(power));
        assert_eq!(Some(n.next_power_of_two()), next_power_of_two(n));
    }
    let top = 1usize << (usize::BITS - 1);
    assert_eq!(next_power_of_two(top), Some(top));
    assert_eq!(next_power_of_two(top - 1), Some(top));
    assert_eq!(next_power_of_two(top + 1), None);
    assert_eq!(next_power_of_two(usize::MAX), None);
}

#[test]
fn a_polynomial_is_evaluated_coefficient_by_coefficient() {
    let coefficients: Vec<F97> = [3u64, 0, 2].iter().map(|c| F97::from_u64(*c)).collect();
    // 3 + 2 * 5^2
    assert_eq!(evaluate(&coefficients, &F97::from_u64(5)).to_u64(), 53);
    // 3 + 2 * 10^2 = 203
    assert_eq!(evaluate(&coefficients, &F97::from_u64(10)).to_u64(), 9);
    assert_eq!(evaluate(&coefficients, &F97::from_u64(0)).to_u64(), 3);
    assert_eq!(evaluate(&Vec::<F97>::new(), &F97::from_u64(5)).to_u64(), 0);
    assert_eq!(evaluate(&vec![F97::from_u64(7)], &F97::from_u64(5)).to_u64(), 7);
}

#[test]
fn evaluation_agrees_with_ark_poly() {
    let mut rng = ark_std::test_rng();
    let supported_degree = 8;
    for _ in 0..3 {
        let polynomial = DensePolynomial::<ark_pallas::Fr>::rand(supported_degree, &mut rng);
        let point = PallasScalar::random(&mut rng);
        let coefficients: Vec<PallasScalar> = polynomial
            .coeffs
            .iter()
            .map(|c| PallasScalar::from_limbs(c.into_repr().0).unwrap())
            .collect();
        let expected = polynomial
            .evaluate(&ark_pallas::Fr::from_repr(ark_ff::BigInteger256::new(point.to_limbs())).unwrap());
        assert_eq!(evaluate(&coefficients, &point).to_limbs(), expected.into_repr().0);
    }
}

#[test]
fn batch_evaluation_stops_with_the_shorter_list() {
    let scalars = |xs: &[u64]| -> Vec<PallasScalar> { xs.iter().map(|x| PallasScalar::from_u64(*x)).collect() };
    let polynomials = vec![scalars(&[1, 1]), scalars(&[0, 0, 1]), scalars(&[5])];
    let evaluations = UnivariateIPA::<PallasGroup>::batch_evaluate(&polynomials, &scalars(&[2, 3]));
    assert_eq!(
        evaluations.iter().map(|e| e.to_limbs()).collect::<Vec<_>>(),
        vec![[3, 0, 0, 0], [9, 0, 0, 0]]
    );
    let evaluations = UnivariateIPA::<PallasGroup>::batch_evaluate(&polynomials, &scalars(&[2, 3, 4, 5]));
    assert_eq!(evaluations.len(), 3);
    assert_eq!(evaluations[2].to_limbs(), [5, 0, 0, 0]);
    assert!(UnivariateIPA::<PallasGroup>::batch_evaluate(&vec![], &scalars(&[2])).is_empty());
}
