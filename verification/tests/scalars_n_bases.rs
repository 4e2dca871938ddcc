use ark_ec::{AffineCurve, ProjectiveCurve};
use ark_ff::PrimeField as ArkPrimeField;
use sangria::field::PrimeField;
use sangria::pasta::{
    CommitmentGroup, PallasGroup, PallasPoint, PallasScalar, VestaGroup, VestaPoint, VestaScalar,
};
use sangria::scalars_n_bases::ScalarsAndBases;

fn pallas_point(p: ark_pallas::Affine) -> PallasPoint {
    PallasPoint {
        x: VestaScalar::from_limbs(p.x.into_repr().0).unwrap(),
        y: VestaScalar::from_limbs(p.y.into_repr().0).unwrap(),
        infinity: p.infinity,
    }
}

fn vesta_point(p: ark_vesta::Affine) -> VestaPoint {
    VestaPoint {
        x: PallasScalar::from_limbs(p.x.into_repr().0).unwrap(),
        y: PallasScalar::from_limbs(p.y.into_repr().0).unwrap(),
        infinity: p.infinity,
    }
}

fn pallas_multiple(k: u64) -> ark_pallas::Affine {
    ark_pallas::Affine::prime_subgroup_generator().mul(k).into_affine()
}

fn scalars_of(collection: &ScalarsAndBases<PallasGroup>) -> Vec<([u64; 4], [u64; 4])> {
    let mut entries: Vec<_> = PallasGroup::walk(&collection.base_scalar_map)
        .iter()
        .map(|(base, scalar)| (base.x.to_limbs(), scalar.to_limbs()))
        .collect();
    entries.sort();
    entries
}

#[test]
fn limbs_are_taken_only_below_the_modulus() {
    assert_eq!(PallasScalar::from_limbs([7, 0, 0, 0]).unwrap().to_limbs(), [7, 0, 0, 0]);
    let modulus = [0x8c46eb2100000001, 0x224698fc0994a8dd, 0, 0x4000000000000000];
    assert!(PallasScalar::from_limbs(modulus).is_none());
    let below = [0x8c46eb2100000000, 0x224698fc0994a8dd, 0, 0x4000000000000000];
    assert_eq!(PallasScalar::from_limbs(below).unwrap().to_limbs(), below);
    assert!(PallasScalar::from_limbs([0, 0x224698fc0994a8de, 0, 0x4000000000000000]).is_none());
    assert!(PallasScalar::from_limbs([u64::MAX, u64::MAX, u64::MAX, 0x3fffffffffffffff]).is_some());
    assert!(PallasScalar::from_limbs([0, 0, 1, 0x4000000000000000]).is_none());
    assert!(PallasScalar::from_limbs([0, 0, 0, u64::MAX]).is_none());
    // the modulus of the one field is an element of the other
    let vesta_modulus = [0x992d30ed00000001, 0x224698fc094cf91b, 0, 0x4000000000000000];
    assert!(VestaScalar::from_limbs(vesta_modulus).is_none());
    assert!(PallasScalar::from_limbs(vesta_modulus).is_some());
    assert!(VestaScalar::from_limbs(modulus).is_none());
}

#[test]
fn push_sums_up_the_scalars_of_one_base() {
    let g = pallas_point(pallas_multiple(1));
    let h = pallas_point(pallas_multiple(2));
    let mut collection = ScalarsAndBases::<PallasGroup>::new();
    assert_eq!(scalars_of(&collection), vec![]);
    assert!(PallasGroup::scalar_of(&collection.base_scalar_map, &g).is_none());
    collection.push(PallasScalar::from_u64(3), g);
    collection.push(PallasScalar::from_u64(5), h);
    collection.push(PallasScalar::from_u64(4), g);
    assert_eq!(
        PallasGroup::scalar_of(&collection.base_scalar_map, &g).unwrap().to_limbs(),
        [7, 0, 0, 0]
    );
    assert_eq!(
        PallasGroup::scalar_of(&collection.base_scalar_map, &h).unwrap().to_limbs(),
        [5, 0, 0, 0]
    );
    assert_eq!(scalars_of(&collection).len(), 2);
    // pushing the additive inverse brings the scalar back to zero, and the base stays
    let minus_one = PallasScalar::from_limbs([0x8c46eb2100000000, 0x224698fc0994a8dd, 0, 0x4000000000000000]).unwrap();
    collection.push(minus_one.mul(&PallasScalar::from_u64(5)), h);
    assert_eq!(
        PallasGroup::scalar_of(&collection.base_scalar_map, &h).unwrap().to_limbs(),
        [0, 0, 0, 0]
    );
    assert_eq!(scalars_of(&collection).len(), 2);
}

#[test]
fn merge_adds_the_scaled_entries_of_another_collection() {
    let g = pallas_point(pallas_multiple(1));
    let h = pallas_point(pallas_multiple(2));
    let k = pallas_point(pallas_multiple(3));
    let mut into = ScalarsAndBases::<PallasGroup>::new();
    into.push(PallasScalar::from_u64(3), g);
    into.push(PallasScalar::from_u64(5), h);
    let mut from = ScalarsAndBases::<PallasGroup>::new();
    from.push(PallasScalar::from_u64(10), h);
    from.push(PallasScalar::from_u64(20), k);
    into.merge(PallasScalar::from_u64(7), &from);
    let scalar = |base: &PallasPoint| {
        PallasGroup::scalar_of(&into.base_scalar_map, base).unwrap().to_limbs()
    };
    assert_eq!(scalar(&g), [3, 0, 0, 0]);
    assert_eq!(scalar(&h), [75, 0, 0, 0]);
    assert_eq!(scalar(&k), [140, 0, 0, 0]);
    assert_eq!(scalars_of(&into).len(), 3);
    assert_eq!(scalars_of(&from).len(), 2);

    let mut unchanged = ScalarsAndBases::<PallasGroup>::new();
    unchanged.push(PallasScalar::from_u64(9), g);
    unchanged.merge(PallasScalar::from_u64(7), &ScalarsAndBases::<PallasGroup>::new());
    assert_eq!(scalars_of(&unchanged), vec![(g.x.to_limbs(), [9, 0, 0, 0])]);
}

#[test]
fn multi_scalar_mul_is_the_sum_of_products_on_pallas() {
    let mut collection = ScalarsAndBases::<PallasGroup>::new();
    collection.push(PallasScalar::from_u64(3), pallas_point(pallas_multiple(1)));
    collection.push(PallasScalar::from_u64(5), pallas_point(pallas_multiple(2)));
    collection.push(PallasScalar::from_u64(1), pallas_point(pallas_multiple(7)));
    collection.push(PallasScalar::from_u64(0), pallas_point(pallas_multiple(9)));
    // 3 * 1 + 5 * 2 + 1 * 7 = 20
    assert_eq!(collection.multi_scalar_mul(), pallas_point(pallas_multiple(20)));
    assert_ne!(collection.multi_scalar_mul(), pallas_point(pallas_multiple(19)));

    let empty = ScalarsAndBases::<PallasGroup>::new();
    assert!(empty.multi_scalar_mul().infinity);

    let mut one = ScalarsAndBases::<PallasGroup>::new();
    one.push(PallasScalar::from_u64(1), pallas_point(pallas_multiple(5)));
    assert_eq!(one.multi_scalar_mul(), pallas_point(pallas_multiple(5)));
}

#[test]
fn multi_scalar_mul_is_the_sum_of_products_on_vesta() {
    let multiple =
        |k: u64| vesta_point(ark_vesta::Affine::prime_subgroup_generator().mul(k).into_affine());
    let mut collection = ScalarsAndBases::<VestaGroup>::new();
    collection.push(VestaScalar::from_u64(1 << 40), multiple(1));
    collection.push(VestaScalar::from_u64(6), multiple(4));
    let mut other = ScalarsAndBases::<VestaGroup>::new();
    other.push(VestaScalar::from_u64(2), multiple(4));
    collection.merge(VestaScalar::from_u64(3), &other);
    // 2^40 + (6 + 3 * 2) * 4
    assert_eq!(collection.multi_scalar_mul(), multiple((1 << 40) + 48));
    assert_eq!(
        VestaGroup::sum_of_products(&vec![multiple(2), multiple(3)], &vec![VestaScalar::from_u64(5), VestaScalar::from_u64(2)]),
        multiple(16)
    );
}
