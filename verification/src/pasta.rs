//! The two fields of the Pasta cycle of curves, with the arithmetic of
//! `ark-ff` and the Poseidon sponge of `ark-sponge` behind them.

use ark_ec::msm::VariableBaseMSM;
use ark_ec::ProjectiveCurve;
use ark_ff::{BigInteger256, PrimeField as ArkPrimeField, UniformRand};
use ark_sponge::{CryptographicSponge, FieldBasedCryptographicSponge as ArkFieldSponge};
use ark_sponge::poseidon::{
    PoseidonParameters as ArkPoseidonParameters, PoseidonSponge as ArkPoseidonSponge,
};
use ark_std::rand::rngs::StdRng;
use crate::field::{matrix_values, values, PrimeField};
use crate::transcript::{
    poseidon_shaped, FieldBasedCryptographicSponge, PoseidonParameters, PoseidonParametersView,
};
use std::marker::PhantomData;
use vstd::arithmetic::div_mod::{lemma_mod_bound, lemma_small_mod};
use vstd::prelude::*;

verus! {

/// The number that four limbs stand for, least significant limb first.
pub open spec fn limbs_value(limbs: [u64; 4]) -> nat {
    (limbs[0] as nat) + (limbs[1] as nat) * 0x1_0000_0000_0000_0000nat + (limbs[2] as nat)
        * 0x1_0000_0000_0000_0000_0000_0000_0000_0000nat + (limbs[3] as nat)
        * 0x1_0000_0000_0000_0000_0000_0000_0000_0000_0000_0000_0000_0000nat
}

/// Whether the number that `a` stands for is below the number that `b`
/// stands for.
fn limbs_below(a: [u64; 4], b: [u64; 4]) -> (below: bool)
    ensures
        below == (limbs_value(a) < limbs_value(b)),
{
    a[3] < b[3] || (a[3] == b[3] && (a[2] < b[2] || (a[2] == b[2] && (a[1] < b[1] || (a[1] == b[1]
        && a[0] < b[0])))))
}

/// Limbs that stand for one number are the same limbs.
pub proof fn lemma_limbs_injective(a: [u64; 4], b: [u64; 4])
    ensures
        limbs_value(a) == limbs_value(b) <==> (a[0] == b[0] && a[1] == b[1] && a[2] == b[2]
            && a[3] == b[3]),
{
}

/// The first element that a fresh Poseidon sponge of `ark-sponge` over the
/// prime field of `modulus` elements yields, with the given round numbers,
/// S-box exponent, MDS matrix and round keys, once it has absorbed the
/// given elements.
pub uninterp spec fn poseidon_squeeze(
    modulus: nat,
    full_rounds: nat,
    partial_rounds: nat,
    alpha: nat,
    mds: Seq<Seq<nat>>,
    ark: Seq<Seq<nat>>,
    absorbed: Seq<nat>,
) -> nat;

/// The Poseidon sponge over `F`.
pub struct PoseidonSponge<F: PrimeField>(pub PhantomData<F>);

/// The marker of the Pallas curve: its scalar field and its base field.
#[derive(Clone, Copy, Debug, Default, PartialEq, Eq)]
pub struct PallasGroup;

/// The marker of the Vesta curve: its scalar field and its base field.
#[derive(Clone, Copy, Debug, Default, PartialEq, Eq)]
pub struct VestaGroup;

/// The map from bases to scalars that holds nothing.
pub open spec fn no_entries() -> Map<(nat, nat, bool), nat> {
    Map::empty()
}

/// The points of a vector, each by its coordinates and its flag.
pub open spec fn point_views<E: CommitmentGroup>(points: Seq<E::G1Affine>) -> Seq<
    (nat, nat, bool),
> {
    Seq::new(points.len(), |i: int| E::point_view(points[i]))
}

/// Whether `walk` lists the entries of a map: every entry once, and no
/// other.
pub open spec fn is_walk<E: CommitmentGroup>(
    walk: Seq<(E::G1Affine, E::Fr)>,
    entries: Map<(nat, nat, bool), nat>,
) -> bool {
    &&& forall|i: int|
        0 <= i < walk.len() ==> entries.contains_pair(
            E::point_view((#[trigger] walk[i]).0),
            walk[i].1.value(),
        )
    &&& forall|i: int, j: int|
        0 <= i < j < walk.len() ==> E::point_view((#[trigger] walk[i]).0) != E::point_view(
            (#[trigger] walk[j]).0,
        )
    &&& forall|base: (nat, nat, bool)|
        entries.dom().contains(base) ==> exists|i: int|
            0 <= i < walk.len() && E::point_view((#[trigger] walk[i]).0) == base
}

/// A curve of the cycle: its two fields, its points, the map from bases to
/// scalars, and the sum of products over it.
pub trait CommitmentGroup: Sized {
    /// The scalar field of the curve.
    type Fr: PrimeField;

    /// The base field of the curve, the scalar field of the other curve.
    type Fq: PrimeField;

    /// A point of the curve in affine coordinates.
    type G1Affine: Copy;

    /// A map from bases to their scalars.
    type BaseScalarMap;

    /// A point by its coordinates and its flag.
    spec fn point_view(p: Self::G1Affine) -> (nat, nat, bool);

    /// What the map holds: for each base that is a key, the value of its
    /// scalar.
    spec fn map_entries(map: &Self::BaseScalarMap) -> Map<(nat, nat, bool), nat>;

    /// The sum of the bases, each multiplied by its scalar.
    spec fn msm_spec(bases: Seq<(nat, nat, bool)>, scalars: Seq<nat>) -> (nat, nat, bool);

    /// The map without entries.
    fn empty_map() -> (map: Self::BaseScalarMap)
        ensures
            Self::map_entries(&map) == no_entries(),
    ;

    /// The scalar that the map holds for the base, if it holds one.
    fn scalar_of(map: &Self::BaseScalarMap, base: &Self::G1Affine) -> (scalar: Option<Self::Fr>)
        ensures
            scalar is Some <==> Self::map_entries(map).dom().contains(Self::point_view(*base)),
            scalar is Some ==> scalar->Some_0.value() == Self::map_entries(map)[Self::point_view(
                *base,
            )],
    ;

    /// Sets the scalar of the base and leaves every other entry as it is.
    fn set_scalar(map: &mut Self::BaseScalarMap, base: Self::G1Affine, scalar: Self::Fr)
        ensures
            Self::map_entries(final(map)) == Self::map_entries(old(map)).insert(
                Self::point_view(base),
                scalar.value(),
            ),
    ;

    /// The entries of the map, every entry once, in no order that could be
    /// relied on.
    fn walk(map: &Self::BaseScalarMap) -> (entries: Vec<(Self::G1Affine, Self::Fr)>)
        ensures
            forall|i: int|
                0 <= i < entries.len() ==> Self::map_entries(map).contains_pair(
                    Self::point_view((#[trigger] entries@[i]).0),
                    entries@[i].1.value(),
                ),
            forall|i: int, j: int|
                0 <= i < j < entries.len() ==> Self::point_view((#[trigger] entries@[i]).0)
                    != Self::point_view((#[trigger] entries@[j]).0),
            forall|base: (nat, nat, bool)|
                Self::map_entries(map).dom().contains(base) ==> exists|i: int|
                    0 <= i < entries.len() && Self::point_view((#[trigger] entries@[i]).0)
                        == base,
    ;

    /// The sum of the bases, each multiplied by its scalar.
    fn sum_of_products(bases: &Vec<Self::G1Affine>, scalars: &Vec<Self::Fr>) -> (sum:
        Self::G1Affine)
        ensures
            Self::point_view(sum) == Self::msm_spec(
                Seq::new(bases@.len(), |i: int| Self::point_view(bases@[i])),
                values(scalars@),
            ),
    ;
}

/// The point that `VariableBaseMSM::multi_scalar_mul` of `ark-ec` yields, in
/// affine coordinates, on the curve `y^2 = x^3 + 5` over the prime field of
/// `base_modulus` elements, for the given bases and scalars.
pub uninterp spec fn msm_result(
    base_modulus: nat,
    bases: Seq<(nat, nat, bool)>,
    scalars: Seq<nat>,
) -> (nat, nat, bool);

/// The number of elements of the scalar field of the Pallas curve.
pub open spec fn pallas_scalar_modulus() -> nat {
    0x40000000000000000000000000000000224698fc0994a8dd8c46eb2100000001nat
}

/// The sum of two elements of the scalar field of the Pallas curve, by the `Add` of
/// `ark_pallas::Fr` on the elements with these canonical limbs: the canonical
/// limbs of the sum modulo the field's modulus.
#[verifier::external_body]
fn pallas_scalar_add(a: [u64; 4], b: [u64; 4]) -> (r: [u64; 4])
    requires
        limbs_value(a) < pallas_scalar_modulus(),
        limbs_value(b) < pallas_scalar_modulus(),
    ensures
        limbs_value(r) == (limbs_value(a) + limbs_value(b)) % pallas_scalar_modulus(),
{
    let x = ark_pallas::Fr::from_repr(BigInteger256::new(a)).unwrap();
    let y = ark_pallas::Fr::from_repr(BigInteger256::new(b)).unwrap();
    (x + y).into_repr().0
}

/// The product of two elements of the scalar field of the Pallas curve, by the `Mul` of
/// `ark_pallas::Fr` on the elements with these canonical limbs: the canonical
/// limbs of the product modulo the field's modulus.
#[verifier::external_body]
fn pallas_scalar_mul(a: [u64; 4], b: [u64; 4]) -> (r: [u64; 4])
    requires
        limbs_value(a) < pallas_scalar_modulus(),
        limbs_value(b) < pallas_scalar_modulus(),
    ensures
        limbs_value(r) == (limbs_value(a) * limbs_value(b)) % pallas_scalar_modulus(),
{
    let x = ark_pallas::Fr::from_repr(BigInteger256::new(a)).unwrap();
    let y = ark_pallas::Fr::from_repr(BigInteger256::new(b)).unwrap();
    (x * y).into_repr().0
}

/// An element of the scalar field of the Pallas curve drawn by `UniformRand::rand` of
/// `ark_pallas::Fr`: canonical limbs, and nothing more is claimed of them.
#[verifier::external_body]
fn pallas_scalar_random(rng: &mut StdRng) -> (r: [u64; 4])
    ensures
        limbs_value(r) < pallas_scalar_modulus(),
{
    ark_pallas::Fr::rand(rng).into_repr().0
}

/// The first element that the Poseidon sponge of `ark_sponge` over
/// `ark_pallas::Fr` yields, made with `PoseidonParameters::new` and
/// `PoseidonSponge::new` from the given constants, after `absorb` of the
/// given elements: the named result for this field, these constants and
/// these elements. The constants have the shape without which `new` and the
/// permutation fail.
#[verifier::external_body]
fn pallas_scalar_poseidon(
    full_rounds: u32,
    partial_rounds: u32,
    alpha: u64,
    mds: Vec<Vec<PallasScalar>>,
    ark: Vec<Vec<PallasScalar>>,
    absorbed: &Vec<PallasScalar>,
) -> (r: PallasScalar)
    requires
        poseidon_shaped(
            (PoseidonParametersView {
                full_rounds: full_rounds as nat,
                partial_rounds: partial_rounds as nat,
                alpha: alpha as nat,
                mds: matrix_values(mds@),
                ark: matrix_values(ark@),
            }),
        ),
    ensures
        r.value() == poseidon_squeeze(
            pallas_scalar_modulus(),
            full_rounds as nat,
            partial_rounds as nat,
            alpha as nat,
            matrix_values(mds@),
            matrix_values(ark@),
            values(absorbed@),
        ),
{
    let lift = |x: &PallasScalar| ark_pallas::Fr::from_repr(BigInteger256::new(x.limbs)).unwrap();
    let rows = |m: Vec<Vec<PallasScalar>>| -> Vec<Vec<ark_pallas::Fr>> {
        m.iter().map(|row| row.iter().map(lift).collect()).collect()
    };
    let constants =
        ArkPoseidonParameters::new(full_rounds, partial_rounds, alpha, rows(mds), rows(ark));
    let mut sponge = ArkPoseidonSponge::new(&constants);
    sponge.absorb(&absorbed.iter().map(lift).collect::<Vec<ark_pallas::Fr>>());
    PallasScalar { limbs: sponge.squeeze_native_field_elements(1)[0].into_repr().0 }
}

/// An element of the scalar field of the Pallas curve, held by the four limbs of its
/// canonical representative.
#[derive(Clone, Copy, Debug, PartialEq, Eq, Hash)]
pub struct PallasScalar {
    limbs: [u64; 4],
}

impl PallasScalar {
    #[verifier::type_invariant]
    spec fn canonical(&self) -> bool {
        limbs_value(self.limbs) < pallas_scalar_modulus()
    }

    /// The four limbs of the canonical representative, least significant
    /// first.
    pub fn to_limbs(&self) -> (limbs: [u64; 4])
        ensures
            limbs_value(limbs) == self.value(),
    {
        proof {
            use_type_invariant(self);
            lemma_small_mod(limbs_value(self.limbs), pallas_scalar_modulus());
        }
        self.limbs
    }

    /// The element with these limbs as its canonical representative, or
    /// nothing where the limbs stand for a number that is no less than the
    /// modulus.
    pub fn from_limbs(limbs: [u64; 4]) -> (element: Option<Self>)
        ensures
            element is Some <==> limbs_value(limbs) < pallas_scalar_modulus(),
            element is Some ==> element->Some_0.value() == limbs_value(limbs),
    {
        let modulus: [u64; 4] = [
            0x8c46eb2100000001,
            0x224698fc0994a8dd,
            0x0000000000000000,
            0x4000000000000000,
        ];
        if limbs_below(limbs, modulus) {
            proof {
                lemma_small_mod(limbs_value(limbs), pallas_scalar_modulus());
            }
            Some(PallasScalar { limbs })
        } else {
            None
        }
    }
}

impl PrimeField for PallasScalar {
    open spec fn modulus() -> nat {
        pallas_scalar_modulus()
    }

    closed spec fn value(&self) -> nat {
        limbs_value(self.limbs) % pallas_scalar_modulus()
    }

    proof fn lemma_canonical(&self) {
        lemma_mod_bound(limbs_value(self.limbs) as int, pallas_scalar_modulus() as int);
    }

    fn from_u64(x: u64) -> (r: Self) {
        let limbs: [u64; 4] = [x, 0, 0, 0];
        proof {
            lemma_small_mod(x as nat, pallas_scalar_modulus());
        }
        PallasScalar { limbs }
    }

    fn to_word(&self) -> (word: Option<u64>) {
        proof {
            use_type_invariant(self);
            lemma_small_mod(limbs_value(self.limbs), pallas_scalar_modulus());
        }
        if self.limbs[1] == 0 && self.limbs[2] == 0 && self.limbs[3] == 0 {
            Some(self.limbs[0])
        } else {
            None
        }
    }

    fn random(rng: &mut StdRng) -> (r: Self) {
        PallasScalar { limbs: pallas_scalar_random(rng) }
    }

    fn add(&self, rhs: &Self) -> (r: Self) {
        proof {
            use_type_invariant(self);
            use_type_invariant(rhs);
            lemma_small_mod(limbs_value(self.limbs), pallas_scalar_modulus());
            lemma_small_mod(limbs_value(rhs.limbs), pallas_scalar_modulus());
        }
        let limbs = pallas_scalar_add(self.limbs, rhs.limbs);
        proof {
            lemma_mod_bound(
                (limbs_value(self.limbs) + limbs_value(rhs.limbs)) as int,
                pallas_scalar_modulus() as int,
            );
            lemma_small_mod(limbs_value(limbs), pallas_scalar_modulus());
        }
        PallasScalar { limbs }
    }

    fn mul(&self, rhs: &Self) -> (r: Self) {
        proof {
            use_type_invariant(self);
            use_type_invariant(rhs);
            lemma_small_mod(limbs_value(self.limbs), pallas_scalar_modulus());
            lemma_small_mod(limbs_value(rhs.limbs), pallas_scalar_modulus());
        }
        let limbs = pallas_scalar_mul(self.limbs, rhs.limbs);
        proof {
            lemma_mod_bound(
                (limbs_value(self.limbs) * limbs_value(rhs.limbs)) as int,
                pallas_scalar_modulus() as int,
            );
            lemma_small_mod(limbs_value(limbs), pallas_scalar_modulus());
        }
        PallasScalar { limbs }
    }

    fn equals(&self, rhs: &Self) -> (r: bool) {
        proof {
            use_type_invariant(self);
            use_type_invariant(rhs);
            lemma_small_mod(limbs_value(self.limbs), pallas_scalar_modulus());
            lemma_small_mod(limbs_value(rhs.limbs), pallas_scalar_modulus());
            lemma_limbs_injective(self.limbs, rhs.limbs);
        }
        self.limbs[0] == rhs.limbs[0] && self.limbs[1] == rhs.limbs[1] && self.limbs[2]
            == rhs.limbs[2] && self.limbs[3] == rhs.limbs[3]
    }
}

impl FieldBasedCryptographicSponge<PallasScalar> for PoseidonSponge<PallasScalar> {
    open spec fn squeeze_spec(parameters: PoseidonParametersView, absorbed: Seq<nat>) -> nat {
        poseidon_squeeze(
            pallas_scalar_modulus(),
            parameters.full_rounds,
            parameters.partial_rounds,
            parameters.alpha,
            parameters.mds,
            parameters.ark,
            absorbed,
        ) % pallas_scalar_modulus()
    }

    proof fn lemma_squeeze_canonical(parameters: PoseidonParametersView, absorbed: Seq<nat>) {
        lemma_mod_bound(
            poseidon_squeeze(
                pallas_scalar_modulus(),
                parameters.full_rounds,
                parameters.partial_rounds,
                parameters.alpha,
                parameters.mds,
                parameters.ark,
                absorbed,
            ) as int,
            pallas_scalar_modulus() as int,
        );
    }

    fn squeeze_after_absorbing(
        parameters: &PoseidonParameters<PallasScalar>,
        absorbed: &Vec<PallasScalar>,
    ) -> (challenge: PallasScalar) {
        let full_rounds = parameters.full_rounds();
        let challenge = pallas_scalar_poseidon(
            full_rounds,
            parameters.partial_rounds(),
            parameters.alpha(),
            parameters.mds(),
            parameters.ark(),
            absorbed,
        );
        proof {
            challenge.lemma_canonical();
            lemma_small_mod(challenge.value(), pallas_scalar_modulus());
        }
        challenge
    }
}

/// The number of elements of the scalar field of the Vesta curve.
pub open spec fn vesta_scalar_modulus() -> nat {
    0x40000000000000000000000000000000224698fc094cf91b992d30ed00000001nat
}

/// The sum of two elements of the scalar field of the Vesta curve, by the `Add` of
/// `ark_vesta::Fr` on the elements with these canonical limbs: the canonical
/// limbs of the sum modulo the field's modulus.
#[verifier::external_body]
fn vesta_scalar_add(a: [u64; 4], b: [u64; 4]) -> (r: [u64; 4])
    requires
        limbs_value(a) < vesta_scalar_modulus(),
        limbs_value(b) < vesta_scalar_modulus(),
    ensures
        limbs_value(r) == (limbs_value(a) + limbs_value(b)) % vesta_scalar_modulus(),
{
    let x = ark_vesta::Fr::from_repr(BigInteger256::new(a)).unwrap();
    let y = ark_vesta::Fr::from_repr(BigInteger256::new(b)).unwrap();
    (x + y).into_repr().0
}

/// The product of two elements of the scalar field of the Vesta curve, by the `Mul` of
/// `ark_vesta::Fr` on the elements with these canonical limbs: the canonical
/// limbs of the product modulo the field's modulus.
#[verifier::external_body]
fn vesta_scalar_mul(a: [u64; 4], b: [u64; 4]) -> (r: [u64; 4])
    requires
        limbs_value(a) < vesta_scalar_modulus(),
        limbs_value(b) < vesta_scalar_modulus(),
    ensures
        limbs_value(r) == (limbs_value(a) * limbs_value(b)) % vesta_scalar_modulus(),
{
    let x = ark_vesta::Fr::from_repr(BigInteger256::new(a)).unwrap();
    let y = ark_vesta::Fr::from_repr(BigInteger256::new(b)).unwrap();
    (x * y).into_repr().0
}

/// An element of the scalar field of the Vesta curve drawn by `UniformRand::rand` of
/// `ark_vesta::Fr`: canonical limbs, and nothing more is claimed of them.
#[verifier::external_body]
fn vesta_scalar_random(rng: &mut StdRng) -> (r: [u64; 4])
    ensures
        limbs_value(r) < vesta_scalar_modulus(),
{
    ark_vesta::Fr::rand(rng).into_repr().0
}

/// The first element that the Poseidon sponge of `ark_sponge` over
/// `ark_vesta::Fr` yields, made with `PoseidonParameters::new` and
/// `PoseidonSponge::new` from the given constants, after `absorb` of the
/// given elements: the named result for this field, these constants and
/// these elements. The constants have the shape without which `new` and the
/// permutation fail.
#[verifier::external_body]
fn vesta_scalar_poseidon(
    full_rounds: u32,
    partial_rounds: u32,
    alpha: u64,
    mds: Vec<Vec<VestaScalar>>,
    ark: Vec<Vec<VestaScalar>>,
    absorbed: &Vec<VestaScalar>,
) -> (r: VestaScalar)
    requires
        poseidon_shaped(
            (PoseidonParametersView {
                full_rounds: full_rounds as nat,
                partial_rounds: partial_rounds as nat,
                alpha: alpha as nat,
                mds: matrix_values(mds@),
                ark: matrix_values(ark@),
            }),
        ),
    ensures
        r.value() == poseidon_squeeze(
            vesta_scalar_modulus(),
            full_rounds as nat,
            partial_rounds as nat,
            alpha as nat,
            matrix_values(mds@),
            matrix_values(ark@),
            values(absorbed@),
        ),
{
    let lift = |x: &VestaScalar| ark_vesta::Fr::from_repr(BigInteger256::new(x.limbs)).unwrap();
    let rows = |m: Vec<Vec<VestaScalar>>| -> Vec<Vec<ark_vesta::Fr>> {
        m.iter().map(|row| row.iter().map(lift).collect()).collect()
    };
    let constants =
        ArkPoseidonParameters::new(full_rounds, partial_rounds, alpha, rows(mds), rows(ark));
    let mut sponge = ArkPoseidonSponge::new(&constants);
    sponge.absorb(&absorbed.iter().map(lift).collect::<Vec<ark_vesta::Fr>>());
    VestaScalar { limbs: sponge.squeeze_native_field_elements(1)[0].into_repr().0 }
}

/// An element of the scalar field of the Vesta curve, held by the four limbs of its
/// canonical representative.
#[derive(Clone, Copy, Debug, PartialEq, Eq, Hash)]
pub struct VestaScalar {
    limbs: [u64; 4],
}

impl VestaScalar {
    #[verifier::type_invariant]
    spec fn canonical(&self) -> bool {
        limbs_value(self.limbs) < vesta_scalar_modulus()
    }

    /// The four limbs of the canonical representative, least significant
    /// first.
    pub fn to_limbs(&self) -> (limbs: [u64; 4])
        ensures
            limbs_value(limbs) == self.value(),
    {
        proof {
            use_type_invariant(self);
            lemma_small_mod(limbs_value(self.limbs), vesta_scalar_modulus());
        }
        self.limbs
    }

    /// The element with these limbs as its canonical representative, or
    /// nothing where the limbs stand for a number that is no less than the
    /// modulus.
    pub fn from_limbs(limbs: [u64; 4]) -> (element: Option<Self>)
        ensures
            element is Some <==> limbs_value(limbs) < vesta_scalar_modulus(),
            element is Some ==> element->Some_0.value() == limbs_value(limbs),
    {
        let modulus: [u64; 4] = [
            0x992d30ed00000001,
            0x224698fc094cf91b,
            0x0000000000000000,
            0x4000000000000000,
        ];
        if limbs_below(limbs, modulus) {
            proof {
                lemma_small_mod(limbs_value(limbs), vesta_scalar_modulus());
            }
            Some(VestaScalar { limbs })
        } else {
            None
        }
    }
}

impl PrimeField for VestaScalar {
    open spec fn modulus() -> nat {
        vesta_scalar_modulus()
    }

    closed spec fn value(&self) -> nat {
        limbs_value(self.limbs) % vesta_scalar_modulus()
    }

    proof fn lemma_canonical(&self) {
        lemma_mod_bound(limbs_value(self.limbs) as int, vesta_scalar_modulus() as int);
    }

    fn from_u64(x: u64) -> (r: Self) {
        let limbs: [u64; 4] = [x, 0, 0, 0];
        proof {
            lemma_small_mod(x as nat, vesta_scalar_modulus());
        }
        VestaScalar { limbs }
    }

    fn to_word(&self) -> (word: Option<u64>) {
        proof {
            use_type_invariant(self);
            lemma_small_mod(limbs_value(self.limbs), vesta_scalar_modulus());
        }
        if self.limbs[1] == 0 && self.limbs[2] == 0 && self.limbs[3] == 0 {
            Some(self.limbs[0])
        } else {
            None
        }
    }

    fn random(rng: &mut StdRng) -> (r: Self) {
        VestaScalar { limbs: vesta_scalar_random(rng) }
    }

    fn add(&self, rhs: &Self) -> (r: Self) {
        proof {
            use_type_invariant(self);
            use_type_invariant(rhs);
            lemma_small_mod(limbs_value(self.limbs), vesta_scalar_modulus());
            lemma_small_mod(limbs_value(rhs.limbs), vesta_scalar_modulus());
        }
        let limbs = vesta_scalar_add(self.limbs, rhs.limbs);
        proof {
            lemma_mod_bound(
                (limbs_value(self.limbs) + limbs_value(rhs.limbs)) as int,
                vesta_scalar_modulus() as int,
            );
            lemma_small_mod(limbs_value(limbs), vesta_scalar_modulus());
        }
        VestaScalar { limbs }
    }

    fn mul(&self, rhs: &Self) -> (r: Self) {
        proof {
            use_type_invariant(self);
            use_type_invariant(rhs);
            lemma_small_mod(limbs_value(self.limbs), vesta_scalar_modulus());
            lemma_small_mod(limbs_value(rhs.limbs), vesta_scalar_modulus());
        }
        let limbs = vesta_scalar_mul(self.limbs, rhs.limbs);
        proof {
            lemma_mod_bound(
                (limbs_value(self.limbs) * limbs_value(rhs.limbs)) as int,
                vesta_scalar_modulus() as int,
            );
            lemma_small_mod(limbs_value(limbs), vesta_scalar_modulus());
        }
        VestaScalar { limbs }
    }

    fn equals(&self, rhs: &Self) -> (r: bool) {
        proof {
            use_type_invariant(self);
            use_type_invariant(rhs);
            lemma_small_mod(limbs_value(self.limbs), vesta_scalar_modulus());
            lemma_small_mod(limbs_value(rhs.limbs), vesta_scalar_modulus());
            lemma_limbs_injective(self.limbs, rhs.limbs);
        }
        self.limbs[0] == rhs.limbs[0] && self.limbs[1] == rhs.limbs[1] && self.limbs[2]
            == rhs.limbs[2] && self.limbs[3] == rhs.limbs[3]
    }
}

impl FieldBasedCryptographicSponge<VestaScalar> for PoseidonSponge<VestaScalar> {
    open spec fn squeeze_spec(parameters: PoseidonParametersView, absorbed: Seq<nat>) -> nat {
        poseidon_squeeze(
            vesta_scalar_modulus(),
            parameters.full_rounds,
            parameters.partial_rounds,
            parameters.alpha,
            parameters.mds,
            parameters.ark,
            absorbed,
        ) % vesta_scalar_modulus()
    }

    proof fn lemma_squeeze_canonical(parameters: PoseidonParametersView, absorbed: Seq<nat>) {
        lemma_mod_bound(
            poseidon_squeeze(
                vesta_scalar_modulus(),
                parameters.full_rounds,
                parameters.partial_rounds,
                parameters.alpha,
                parameters.mds,
                parameters.ark,
                absorbed,
            ) as int,
            vesta_scalar_modulus() as int,
        );
    }

    fn squeeze_after_absorbing(
        parameters: &PoseidonParameters<VestaScalar>,
        absorbed: &Vec<VestaScalar>,
    ) -> (challenge: VestaScalar) {
        let full_rounds = parameters.full_rounds();
        let challenge = vesta_scalar_poseidon(
            full_rounds,
            parameters.partial_rounds(),
            parameters.alpha(),
            parameters.mds(),
            parameters.ark(),
            absorbed,
        );
        proof {
            challenge.lemma_canonical();
            lemma_small_mod(challenge.value(), vesta_scalar_modulus());
        }
        challenge
    }
}

/// A point of the Pallas curve in affine coordinates, or the point at
/// infinity: two elements of the base field and a flag, as `ark-ec` holds
/// them.
#[derive(Clone, Copy, Debug, PartialEq, Eq, Hash)]
pub struct PallasPoint {
    /// The first coordinate.
    pub x: VestaScalar,
    /// The second coordinate.
    pub y: VestaScalar,
    /// Whether this is the point at infinity.
    pub infinity: bool,
}

/// The bases and their scalars, in a `hashbrown::HashMap`: a key is the
/// limbs of the two coordinates of a base and its flag, a value the limbs
/// of its scalar.
#[verifier::external_body]
pub struct PallasBaseScalarMap {
    inner: hashbrown::HashMap<([u64; 4], [u64; 4], bool), [u64; 4]>,
}

/// What the map holds: for each key, read as the numbers that its limbs
/// stand for and its flag, the number that the limbs of its value stand
/// for.
pub uninterp spec fn pallas_map_entries(map: PallasBaseScalarMap) -> Map<(nat, nat, bool), nat>;

/// The empty map, by `HashMap::new`.
#[verifier::external_body]
fn pallas_map_new() -> (created: PallasBaseScalarMap)
    ensures
        pallas_map_entries(created) == no_entries(),
{
    PallasBaseScalarMap { inner: hashbrown::HashMap::new() }
}

/// The scalar of a base, by `HashMap::get` on the limbs of the base: the
/// scalar that the map holds for this key, and nothing where the base is no
/// key.
#[verifier::external_body]
fn pallas_map_get(map: &PallasBaseScalarMap, base: &PallasPoint) -> (scalar: Option<PallasScalar>)
    ensures
        scalar is Some <==> pallas_map_entries(*map).dom().contains(pallas_point_view(*base)),
        scalar is Some ==> scalar->Some_0.value() == pallas_map_entries(*map)[pallas_point_view(
            *base,
        )],
{
    let key = (base.x.limbs, base.y.limbs, base.infinity);
    map.inner.get(&key).map(|limbs| PallasScalar { limbs: *limbs })
}

/// Sets the scalar of a base, by `HashMap::insert`: afterwards the map holds
/// the scalar for this key, and for every other key what it held before.
#[verifier::external_body]
fn pallas_map_insert(map: &mut PallasBaseScalarMap, base: PallasPoint, scalar: PallasScalar)
    ensures
        pallas_map_entries(*final(map)) == pallas_map_entries(*old(map)).insert(
            pallas_point_view(base),
            scalar.value(),
        ),
{
    map.inner.insert((base.x.limbs, base.y.limbs, base.infinity), scalar.limbs);
}

/// The entries of the map, by `HashMap::iter`, in the order in which the map
/// is walked, of which nothing is claimed: every entry once, and no other.
#[verifier::external_body]
fn pallas_map_walk(map: &PallasBaseScalarMap) -> (walk: Vec<(PallasPoint, PallasScalar)>)
    ensures
        forall|i: int|
            0 <= i < walk.len() ==> pallas_map_entries(*map).contains_pair(
                pallas_point_view((#[trigger] walk@[i]).0),
                walk@[i].1.value(),
            ),
        forall|i: int, j: int|
            0 <= i < j < walk.len() ==> pallas_point_view((#[trigger] walk@[i]).0)
                != pallas_point_view((#[trigger] walk@[j]).0),
        forall|base: (nat, nat, bool)|
            pallas_map_entries(*map).dom().contains(base) ==> exists|i: int|
                0 <= i < walk.len() && pallas_point_view((#[trigger] walk@[i]).0) == base,
{
    let point = |key: &([u64; 4], [u64; 4], bool)| PallasPoint {
        x: VestaScalar { limbs: key.0 },
        y: VestaScalar { limbs: key.1 },
        infinity: key.2,
    };
    map.inner.iter().map(|(key, limbs)| (point(key), PallasScalar { limbs: *limbs })).collect()
}

/// The sum of the bases, each multiplied by its scalar, by
/// `VariableBaseMSM::multi_scalar_mul` of `ark-ec` on the Pallas curve and
/// brought to affine coordinates: the named result for this curve, these
/// bases and these scalars.
#[verifier::external_body]
fn pallas_msm(bases: &Vec<PallasPoint>, scalars: &Vec<PallasScalar>) -> (sum: PallasPoint)
    ensures
        pallas_point_view(sum) == msm_result(
            vesta_scalar_modulus(),
            Seq::new(bases@.len(), |i: int| pallas_point_view(bases@[i])),
            values(scalars@),
        ),
{
    let lift = |c: &VestaScalar| ark_pallas::Fq::from_repr(BigInteger256::new(c.limbs)).unwrap();
    let points: Vec<ark_pallas::Affine> =
        bases.iter().map(|p| ark_pallas::Affine::new(lift(&p.x), lift(&p.y), p.infinity)).collect();
    let repr: Vec<BigInteger256> = scalars.iter().map(|s| BigInteger256::new(s.limbs)).collect();
    let sum = VariableBaseMSM::multi_scalar_mul(&points, &repr).into_affine();
    PallasPoint {
        x: VestaScalar { limbs: sum.x.into_repr().0 },
        y: VestaScalar { limbs: sum.y.into_repr().0 },
        infinity: sum.infinity,
    }
}

/// A point by its coordinates and its flag.
pub open spec fn pallas_point_view(p: PallasPoint) -> (nat, nat, bool) {
    (p.x.value(), p.y.value(), p.infinity)
}

impl CommitmentGroup for PallasGroup {
    type Fr = PallasScalar;

    type Fq = VestaScalar;

    type G1Affine = PallasPoint;

    type BaseScalarMap = PallasBaseScalarMap;

    open spec fn point_view(p: PallasPoint) -> (nat, nat, bool) {
        pallas_point_view(p)
    }

    open spec fn map_entries(map: &PallasBaseScalarMap) -> Map<(nat, nat, bool), nat> {
        pallas_map_entries(*map)
    }

    open spec fn msm_spec(bases: Seq<(nat, nat, bool)>, scalars: Seq<nat>) -> (nat, nat, bool) {
        msm_result(vesta_scalar_modulus(), bases, scalars)
    }

    fn empty_map() -> (map: PallasBaseScalarMap) {
        pallas_map_new()
    }

    fn scalar_of(map: &PallasBaseScalarMap, base: &PallasPoint) -> (scalar: Option<PallasScalar>) {
        pallas_map_get(map, base)
    }

    fn set_scalar(map: &mut PallasBaseScalarMap, base: PallasPoint, scalar: PallasScalar) {
        pallas_map_insert(map, base, scalar)
    }

    fn walk(map: &PallasBaseScalarMap) -> (entries: Vec<(PallasPoint, PallasScalar)>) {
        pallas_map_walk(map)
    }

    fn sum_of_products(bases: &Vec<PallasPoint>, scalars: &Vec<PallasScalar>) -> (sum:
        PallasPoint) {
        let sum = pallas_msm(bases, scalars);
        assert(Seq::new(
            bases@.len(),
            |i: int| <PallasGroup as CommitmentGroup>::point_view(bases@[i]),
        ) =~= Seq::new(bases@.len(), |i: int| pallas_point_view(bases@[i])));
        sum
    }
}

/// A point of the Vesta curve in affine coordinates, or the point at
/// infinity: two elements of the base field and a flag, as `ark-ec` holds
/// them.
#[derive(Clone, Copy, Debug, PartialEq, Eq, Hash)]
pub struct VestaPoint {
    /// The first coordinate.
    pub x: PallasScalar,
    /// The second coordinate.
    pub y: PallasScalar,
    /// Whether this is the point at infinity.
    pub infinity: bool,
}

/// The bases and their scalars, in a `hashbrown::HashMap`: a key is the
/// limbs of the two coordinates of a base and its flag, a value the limbs
/// of its scalar.
#[verifier::external_body]
pub struct VestaBaseScalarMap {
    inner: hashbrown::HashMap<([u64; 4], [u64; 4], bool), [u64; 4]>,
}

/// What the map holds: for each key, read as the numbers that its limbs
/// stand for and its flag, the number that the limbs of its value stand
/// for.
pub uninterp spec fn vesta_map_entries(map: VestaBaseScalarMap) -> Map<(nat, nat, bool), nat>;

/// The empty map, by `HashMap::new`.
#[verifier::external_body]
fn vesta_map_new() -> (created: VestaBaseScalarMap)
    ensures
        vesta_map_entries(created) == no_entries(),
{
    VestaBaseScalarMap { inner: hashbrown::HashMap::new() }
}

/// The scalar of a base, by `HashMap::get` on the limbs of the base: the
/// scalar that the map holds for this key, and nothing where the base is no
/// key.
#[verifier::external_body]
fn vesta_map_get(map: &VestaBaseScalarMap, base: &VestaPoint) -> (scalar: Option<VestaScalar>)
    ensures
        scalar is Some <==> vesta_map_entries(*map).dom().contains(vesta_point_view(*base)),
        scalar is Some ==> scalar->Some_0.value() == vesta_map_entries(*map)[vesta_point_view(
            *base,
        )],
{
    let key = (base.x.limbs, base.y.limbs, base.infinity);
    map.inner.get(&key).map(|limbs| VestaScalar { limbs: *limbs })
}

/// Sets the scalar of a base, by `HashMap::insert`: afterwards the map holds
/// the scalar for this key, and for every other key what it held before.
#[verifier::external_body]
fn vesta_map_insert(map: &mut VestaBaseScalarMap, base: VestaPoint, scalar: VestaScalar)
    ensures
        vesta_map_entries(*final(map)) == vesta_map_entries(*old(map)).insert(
            vesta_point_view(base),
            scalar.value(),
        ),
{
    map.inner.insert((base.x.limbs, base.y.limbs, base.infinity), scalar.limbs);
}

/// The entries of the map, by `HashMap::iter`, in the order in which the map
/// is walked, of which nothing is claimed: every entry once, and no other.
#[verifier::external_body]
fn vesta_map_walk(map: &VestaBaseScalarMap) -> (walk: Vec<(VestaPoint, VestaScalar)>)
    ensures
        forall|i: int|
            0 <= i < walk.len() ==> vesta_map_entries(*map).contains_pair(
                vesta_point_view((#[trigger] walk@[i]).0),
                walk@[i].1.value(),
            ),
        forall|i: int, j: int|
            0 <= i < j < walk.len() ==> vesta_point_view((#[trigger] walk@[i]).0)
                != vesta_point_view((#[trigger] walk@[j]).0),
        forall|base: (nat, nat, bool)|
            vesta_map_entries(*map).dom().contains(base) ==> exists|i: int|
                0 <= i < walk.len() && vesta_point_view((#[trigger] walk@[i]).0) == base,
{
    let point = |key: &([u64; 4], [u64; 4], bool)| VestaPoint {
        x: PallasScalar { limbs: key.0 },
        y: PallasScalar { limbs: key.1 },
        infinity: key.2,
    };
    map.inner.iter().map(|(key, limbs)| (point(key), VestaScalar { limbs: *limbs })).collect()
}

/// The sum of the bases, each multiplied by its scalar, by
/// `VariableBaseMSM::multi_scalar_mul` of `ark-ec` on the Vesta curve and
/// brought to affine coordinates: the named result for this curve, these
/// bases and these scalars.
#[verifier::external_body]
fn vesta_msm(bases: &Vec<VestaPoint>, scalars: &Vec<VestaScalar>) -> (sum: VestaPoint)
    ensures
        vesta_point_view(sum) == msm_result(
            pallas_scalar_modulus(),
            Seq::new(bases@.len(), |i: int| vesta_point_view(bases@[i])),
            values(scalars@),
        ),
{
    let lift = |c: &PallasScalar| ark_vesta::Fq::from_repr(BigInteger256::new(c.limbs)).unwrap();
    let points: Vec<ark_vesta::Affine> =
        bases.iter().map(|p| ark_vesta::Affine::new(lift(&p.x), lift(&p.y), p.infinity)).collect();
    let repr: Vec<BigInteger256> = scalars.iter().map(|s| BigInteger256::new(s.limbs)).collect();
    let sum = VariableBaseMSM::multi_scalar_mul(&points, &repr).into_affine();
    VestaPoint {
        x: PallasScalar { limbs: sum.x.into_repr().0 },
        y: PallasScalar { limbs: sum.y.into_repr().0 },
        infinity: sum.infinity,
    }
}

/// A point by its coordinates and its flag.
pub open spec fn vesta_point_view(p: VestaPoint) -> (nat, nat, bool) {
    (p.x.value(), p.y.value(), p.infinity)
}

impl CommitmentGroup for VestaGroup {
    type Fr = VestaScalar;

    type Fq = PallasScalar;

    type G1Affine = VestaPoint;

    type BaseScalarMap = VestaBaseScalarMap;

    open spec fn point_view(p: VestaPoint) -> (nat, nat, bool) {
        vesta_point_view(p)
    }

    open spec fn map_entries(map: &VestaBaseScalarMap) -> Map<(nat, nat, bool), nat> {
        vesta_map_entries(*map)
    }

    open spec fn msm_spec(bases: Seq<(nat, nat, bool)>, scalars: Seq<nat>) -> (nat, nat, bool) {
        msm_result(pallas_scalar_modulus(), bases, scalars)
    }

    fn empty_map() -> (map: VestaBaseScalarMap) {
        vesta_map_new()
    }

    fn scalar_of(map: &VestaBaseScalarMap, base: &VestaPoint) -> (scalar: Option<VestaScalar>) {
        vesta_map_get(map, base)
    }

    fn set_scalar(map: &mut VestaBaseScalarMap, base: VestaPoint, scalar: VestaScalar) {
        vesta_map_insert(map, base, scalar)
    }

    fn walk(map: &VestaBaseScalarMap) -> (entries: Vec<(VestaPoint, VestaScalar)>) {
        vesta_map_walk(map)
    }

    fn sum_of_products(bases: &Vec<VestaPoint>, scalars: &Vec<VestaScalar>) -> (sum:
        VestaPoint) {
        let sum = vesta_msm(bases, scalars);
        assert(Seq::new(
            bases@.len(),
            |i: int| <VestaGroup as CommitmentGroup>::point_view(bases@[i]),
        ) =~= Seq::new(bases@.len(), |i: int| vesta_point_view(bases@[i])));
        sum
    }
}

} // verus!
