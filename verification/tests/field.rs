use ark_ff::{BigInteger256, PrimeField as ArkPrimeField};
use sangria::field::{copy_elements, PrimeField, Zp};
use sangria::modular::{add_elements, fold_elements, same_elements, scale_elements};
use sangria::pasta::{PallasScalar, VestaScalar};

type F97 = Zp<97>;

fn elements(xs: &[u64]) -> Vec<F97> {
    xs.iter().map(|x| F97::from_u64(*x)).collect()
}

fn numbers(xs: &[F97]) -> Vec<u64> {
    xs.iter().map(|x| x.to_u64()).collect()
}

#[test]
fn zp_reduces_what_it_is_given() {
    assert_eq!(F97::from_u64(0).to_u64(), 0);
    assert_eq!(F97::from_u64(96).to_u64(), 96);
    assert_eq!(F97::from_u64(97).to_u64(), 0);
    assert_eq!(F97::from_u64(200).to_u64(), 6);
    assert_eq!(F97::characteristic(), 97);
}

#[test]
fn zp_adds_and_multiplies_modulo_97() {
    let a = F97::from_u64(50);
    let b = F97::from_u64(60);
    assert_eq!(a.add(&b).to_u64(), 13);
    assert_eq!(a.mul(&b).to_u64(), 90);
    assert_eq!(F97::from_u64(96).mul(&F97::from_u64(96)).to_u64(), 1);
    assert!(F97::from_u64(13).equals(&a.add(&b)));
    assert!(!a.equals(&b));
}

#[test]
fn zp_with_the_largest_word_prime_does_not_overflow() {
    type Big = Zp<18446744073709551557>;
    let minus_one = Big::from_u64(18446744073709551556);
    assert_eq!(minus_one.mul(&minus_one).to_u64(), 1);
    assert_eq!(minus_one.add(&minus_one).to_u64(), 18446744073709551555);
    assert_eq!(Big::from_u64(u64::MAX).to_u64(), 58);
}

#[test]
fn zp_below_two_computes_modulo_two() {
    assert_eq!(Zp::<0>::characteristic(), 2);
    assert_eq!(Zp::<1>::characteristic(), 2);
    assert_eq!(Zp::<0>::from_u64(3).to_u64(), 1);
    assert_eq!(Zp::<1>::from_u64(3).add(&Zp::<1>::from_u64(1)).to_u64(), 0);
}

#[test]
fn zp_random_is_reduced_and_follows_the_seed() {
    let mut first = ark_std::test_rng();
    let mut second = ark_std::test_rng();
    for _ in 0..20 {
        let a = F97::random(&mut first);
        let b = F97::random(&mut second);
        assert!(a.to_u64() < 97);
        assert_eq!(a.to_u64(), b.to_u64());
    }
}

#[test]
fn vectors_add_scale_and_fold_entry_by_entry() {
    let x = elements(&[1, 2, 96]);
    let y = elements(&[10, 95, 5]);
    assert_eq!(numbers(&add_elements(&x, &y).unwrap()), vec![11, 0, 4]);
    assert_eq!(numbers(&scale_elements(&x, &F97::from_u64(50))), vec![50, 3, 47]);
    assert_eq!(numbers(&fold_elements(&x, &y, &F97::from_u64(5)).unwrap()), vec![51, 89, 24]);
    assert!(add_elements(&x, &elements(&[1, 2])).is_err());
    assert!(fold_elements(&elements(&[1, 2]), &x, &F97::from_u64(5)).is_err());
    assert_eq!(numbers(&copy_elements(&x)), vec![1, 2, 96]);
    assert!(same_elements(&x, &elements(&[98, 2, 96])));
    assert!(!same_elements(&x, &y));
    assert!(!same_elements(&x, &elements(&[1, 2])));
}

#[test]
fn pallas_scalar_multiplies_as_ark_ff_does() {
    let three = PallasScalar::from_u64(3);
    let five = PallasScalar::from_u64(5);
    assert_eq!(three.mul(&five).to_limbs(), [15, 0, 0, 0]);
    assert_eq!(three.add(&five).to_limbs(), [8, 0, 0, 0]);
    let two_to_32 = PallasScalar::from_u64(1 << 32);
    let two_to_64 = two_to_32.mul(&two_to_32);
    assert_eq!(two_to_64.to_limbs(), [0, 1, 0, 0]);
    assert_eq!(two_to_64.add(&two_to_64).to_limbs(), [0, 2, 0, 0]);
    let two_to_128 = two_to_64.mul(&two_to_64);
    assert_eq!(two_to_128.to_limbs(), [0, 0, 1, 0]);
    // 2^256 modulo the order of the scalar field of Pallas
    let two_to_256 = two_to_128.mul(&two_to_128);
    assert_eq!(
        two_to_256.to_limbs(),
        [0x5b2b3e9cfffffffd, 0x992c350be3420567, 0xffffffffffffffff, 0x3fffffffffffffff]
    );
    let direct = ark_pallas::Fr::from_repr(BigInteger256::new([0, 0, 1, 0])).unwrap();
    assert_eq!((direct * direct).into_repr().0, two_to_256.to_limbs());
    assert!(two_to_256.equals(&two_to_128.mul(&two_to_128)));
    assert!(!two_to_256.equals(&two_to_128));
}

#[test]
fn pallas_scalar_wraps_at_its_modulus() {
    // the modulus minus one, as 2^254 + (the low limbs minus one)
    let two_to_64 = PallasScalar::from_u64(1 << 32).mul(&PallasScalar::from_u64(1 << 32));
    let two_to_128 = two_to_64.mul(&two_to_64);
    let two_to_192 = two_to_128.mul(&two_to_64);
    let top = PallasScalar::from_u64(0x4000000000000000).mul(&two_to_192);
    let middle = PallasScalar::from_u64(0x224698fc0994a8dd).mul(&two_to_64);
    let minus_one = top.add(&middle).add(&PallasScalar::from_u64(0x8c46eb2100000000));
    assert_eq!(
        minus_one.to_limbs(),
        [0x8c46eb2100000000, 0x224698fc0994a8dd, 0, 0x4000000000000000]
    );
    assert_eq!(minus_one.add(&PallasScalar::from_u64(1)).to_limbs(), [0, 0, 0, 0]);
    assert_eq!(minus_one.add(&PallasScalar::from_u64(3)).to_limbs(), [2, 0, 0, 0]);
    assert_eq!(minus_one.mul(&minus_one).to_limbs(), [1, 0, 0, 0]);
}

#[test]
fn vesta_scalar_multiplies_as_ark_ff_does() {
    let two_to_64 = VestaScalar::from_u64(1 << 32).mul(&VestaScalar::from_u64(1 << 32));
    assert_eq!(two_to_64.to_limbs(), [0, 1, 0, 0]);
    let two_to_128 = two_to_64.mul(&two_to_64);
    let two_to_256 = two_to_128.mul(&two_to_128);
    let direct = ark_vesta::Fr::from_repr(BigInteger256::new([0, 0, 1, 0])).unwrap();
    assert_eq!((direct * direct).into_repr().0, two_to_256.to_limbs());
    // the two fields of the cycle differ
    let pallas = PallasScalar::from_u64(1 << 32).mul(&PallasScalar::from_u64(1 << 32));
    let pallas_256 = pallas.mul(&pallas).mul(&pallas).mul(&pallas);
    assert_ne!(pallas_256.to_limbs(), two_to_256.to_limbs());
    assert_eq!(
        VestaScalar::from_u64(7).add(&VestaScalar::from_u64(9)).to_limbs(),
        [16, 0, 0, 0]
    );
}

#[test]
fn pasta_random_elements_follow_the_seed() {
    let mut first = ark_std::test_rng();
    let mut second = ark_std::test_rng();
    let a = PallasScalar::random(&mut first);
    let b = PallasScalar::random(&mut second);
    assert_eq!(a.to_limbs(), b.to_limbs());
    assert!(a.to_limbs()[3] <= 0x4000000000000000);
    let c = PallasScalar::random(&mut first);
    assert_ne!(a.to_limbs(), c.to_limbs());
    let d = VestaScalar::random(&mut first);
    assert!(d.to_limbs()[3] <= 0x4000000000000000);
}

#[test]
fn elements_are_machine_words_where_they_are_small() {
    assert_eq!(F97::from_u64(96).to_word(), Some(96));
    assert_eq!(F97::from_u64(97).to_word(), Some(0));
    assert_eq!(PallasScalar::from_u64(u64::MAX).to_word(), Some(u64::MAX));
    let two_to_64 = PallasScalar::from_u64(1 << 32).mul(&PallasScalar::from_u64(1 << 32));
    assert_eq!(two_to_64.to_word(), None);
    assert_eq!(two_to_64.mul(&two_to_64).to_word(), None);
    assert_eq!(VestaScalar::from_u64(0).to_word(), Some(0));
    assert_eq!(VestaScalar::from_u64(1 << 63).add(&VestaScalar::from_u64(1 << 63)).to_word(), None);
}
