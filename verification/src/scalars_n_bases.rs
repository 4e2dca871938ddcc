//! Bases with their scalars: a map that sums up the scalars of equal bases,
//! and the sum of products over what it holds.

use crate::field::{values, PrimeField};
use crate::modular::{add_mod, mul_mod};
use crate::pasta::{is_walk, no_entries, CommitmentGroup};
use vstd::prelude::*;

verus! {

/// The scalar that the entries hold for a base, and zero where they hold
/// none.
pub open spec fn scalar_or_zero(
    entries: Map<(nat, nat, bool), nat>,
    base: (nat, nat, bool),
) -> nat {
    if entries.dom().contains(base) {
        entries[base]
    } else {
        0
    }
}

/// The entries after `scalar` has been added to what they hold for `base`.
pub open spec fn pushed(
    entries: Map<(nat, nat, bool), nat>,
    scalar: nat,
    base: (nat, nat, bool),
    p: nat,
) -> Map<(nat, nat, bool), nat> {
    entries.insert(base, add_mod(scalar_or_zero(entries, base), scalar, p))
}

/// The entries of `into` after the entries of `from`, each multiplied by
/// `c`, have been added to them: a base of `from` holds what `into` held
/// for it plus `c` times what `from` holds, every other base what it held.
pub open spec fn merged(
    into: Map<(nat, nat, bool), nat>,
    c: nat,
    from: Map<(nat, nat, bool), nat>,
    p: nat,
) -> Map<(nat, nat, bool), nat> {
    Map::new(
        |base: (nat, nat, bool)| into.dom().contains(base) || from.dom().contains(base),
        |base: (nat, nat, bool)|
            if from.dom().contains(base) {
                add_mod(scalar_or_zero(into, base), mul_mod(c, from[base], p), p)
            } else {
                into[base]
            },
    )
}

/// The entries of `into` after the first `k` entries of the walk, each
/// multiplied by `c`, have been pushed one after the other.
pub open spec fn merged_so_far<E: CommitmentGroup>(
    into: Map<(nat, nat, bool), nat>,
    c: nat,
    walk: Seq<(E::G1Affine, E::Fr)>,
    k: nat,
) -> Map<(nat, nat, bool), nat>
    decreases k,
{
    if k == 0 {
        into
    } else {
        pushed(
            merged_so_far::<E>(into, c, walk, (k - 1) as nat),
            mul_mod(c, walk[k - 1].1.value(), E::Fr::modulus()),
            E::point_view(walk[k - 1].0),
            E::Fr::modulus(),
        )
    }
}

/// What has been merged after `k` entries of a walk: the bases among the
/// first `k` hold their sums, every other base what it held.
proof fn lemma_merged_so_far<E: CommitmentGroup>(
    into: Map<(nat, nat, bool), nat>,
    c: nat,
    walk: Seq<(E::G1Affine, E::Fr)>,
    from: Map<(nat, nat, bool), nat>,
    k: nat,
)
    requires
        is_walk::<E>(walk, from),
        k <= walk.len(),
    ensures
        forall|base: (nat, nat, bool)|
            #![trigger merged_so_far::<E>(into, c, walk, k).dom().contains(base)]
            merged_so_far::<E>(into, c, walk, k).dom().contains(base) <==> (into.dom().contains(
                base,
            ) || exists|j: int| 0 <= j < k && E::point_view((#[trigger] walk[j]).0) == base),
        forall|j: int|
            0 <= j < k ==> merged_so_far::<E>(into, c, walk, k)[E::point_view(
                (#[trigger] walk[j]).0,
            )] == add_mod(
                scalar_or_zero(into, E::point_view(walk[j].0)),
                mul_mod(c, walk[j].1.value(), E::Fr::modulus()),
                E::Fr::modulus(),
            ),
        forall|base: (nat, nat, bool)|
            #![trigger merged_so_far::<E>(into, c, walk, k)[base]]
            into.dom().contains(base) && (forall|j: int|
                0 <= j < k ==> E::point_view((#[trigger] walk[j]).0) != base)
                ==> merged_so_far::<E>(into, c, walk, k)[base] == into[base],
    decreases k,
{
    if k > 0 {
        let before = merged_so_far::<E>(into, c, walk, (k - 1) as nat);
        let after = merged_so_far::<E>(into, c, walk, k);
        let key = E::point_view(walk[k - 1].0);
        lemma_merged_so_far::<E>(into, c, walk, from, (k - 1) as nat);
        // the key of this entry is none of the earlier keys
        assert(forall|j: int| 0 <= j < k - 1 ==> E::point_view((#[trigger] walk[j]).0) != key);
        assert(scalar_or_zero(before, key) == scalar_or_zero(into, key)) by {
            if into.dom().contains(key) {
                assert(before.dom().contains(key));
                assert(before[key] == into[key]);
            } else {
                assert(!before.dom().contains(key));
            }
        }
        assert forall|base: (nat, nat, bool)|
            #![trigger after.dom().contains(base)]
            after.dom().contains(base) <==> (into.dom().contains(base) || exists|j: int|
                0 <= j < k && E::point_view((#[trigger] walk[j]).0) == base) by {
            if base == key {
                assert(E::point_view(walk[k - 1].0) == base);
            } else {
                assert(after.dom().contains(base) == before.dom().contains(base));
                if before.dom().contains(base) && !into.dom().contains(base) {
                    let j = choose|j: int|
                        0 <= j < k - 1 && E::point_view((#[trigger] walk[j]).0) == base;
                    assert(0 <= j < k && E::point_view(walk[j].0) == base);
                }
            }
        }
        assert forall|j: int| 0 <= j < k implies after[E::point_view((#[trigger] walk[j]).0)]
            == add_mod(
            scalar_or_zero(into, E::point_view(walk[j].0)),
            mul_mod(c, walk[j].1.value(), E::Fr::modulus()),
            E::Fr::modulus(),
        ) by {
            if j < k - 1 {
                assert(E::point_view(walk[j].0) != key);
            }
        }
    }
}

/// Pushing a walk of `from` entry by entry merges `from`.
proof fn lemma_merged<E: CommitmentGroup>(
    into: Map<(nat, nat, bool), nat>,
    c: nat,
    walk: Seq<(E::G1Affine, E::Fr)>,
    from: Map<(nat, nat, bool), nat>,
)
    requires
        is_walk::<E>(walk, from),
    ensures
        merged_so_far::<E>(into, c, walk, walk.len()) == merged(into, c, from, E::Fr::modulus()),
{
    let done = merged_so_far::<E>(into, c, walk, walk.len());
    let goal = merged(into, c, from, E::Fr::modulus());
    lemma_merged_so_far::<E>(into, c, walk, from, walk.len());
    assert forall|base: (nat, nat, bool)| done.dom().contains(base) == goal.dom().contains(
        base,
    ) by {
        if from.dom().contains(base) {
            let j = choose|j: int|
                0 <= j < walk.len() && E::point_view((#[trigger] walk[j]).0) == base;
            assert(done.dom().contains(base));
        }
        if done.dom().contains(base) && !into.dom().contains(base) {
            let j = choose|j: int|
                0 <= j < walk.len() && E::point_view((#[trigger] walk[j]).0) == base;
            assert(from.contains_pair(E::point_view(walk[j].0), walk[j].1.value()));
        }
    }
    assert forall|base: (nat, nat, bool)| done.dom().contains(base) implies done[base]
        == goal[base] by {
        if from.dom().contains(base) {
            let j = choose|j: int|
                0 <= j < walk.len() && E::point_view((#[trigger] walk[j]).0) == base;
            assert(from.contains_pair(E::point_view(walk[j].0), walk[j].1.value()));
            assert(done[E::point_view(walk[j].0)] == goal[base]);
        } else {
            assert forall|j: int| 0 <= j < walk.len() implies E::point_view(
                (#[trigger] walk[j]).0,
            ) != base by {
                assert(from.contains_pair(E::point_view(walk[j].0), walk[j].1.value()));
            }
            assert(into.dom().contains(base));
        }
    }
    assert(done =~= goal);
}

/// Bases and their scalars: each base once, with the sum of the scalars
/// that were pushed for it.
pub struct ScalarsAndBases<E: CommitmentGroup> {
    /// The map from each base to its scalar.
    pub base_scalar_map: E::BaseScalarMap,
}

impl<E: CommitmentGroup> View for ScalarsAndBases<E> {
    type V = Map<(nat, nat, bool), nat>;

    open spec fn view(&self) -> Map<(nat, nat, bool), nat> {
        E::map_entries(&self.base_scalar_map)
    }
}

impl<E: CommitmentGroup> ScalarsAndBases<E> {
    /// The collection without bases.
    pub fn new() -> (empty: Self)
        ensures
            empty@ == no_entries(),
    {
        ScalarsAndBases { base_scalar_map: E::empty_map() }
    }

    /// Adds `scalar` to the scalar of `base`, which is zero where the base
    /// is new.
    pub fn push(&mut self, scalar: E::Fr, base: E::G1Affine)
        ensures
            final(self)@ == pushed(
                old(self)@,
                scalar.value(),
                E::point_view(base),
                E::Fr::modulus(),
            ),
    {
        let sum = match E::scalar_of(&self.base_scalar_map, &base) {
            Some(held) => held.add(&scalar),
            None => {
                let zero = E::Fr::from_u64(0);
                proof {
                    zero.lemma_canonical();
                    vstd::arithmetic::div_mod::lemma_small_mod(0, E::Fr::modulus());
                }
                zero.add(&scalar)
            },
        };
        E::set_scalar(&mut self.base_scalar_map, base, sum);
    }

    /// Adds the bases and scalars of another collection, each scalar
    /// multiplied by `c`.
    pub fn merge(&mut self, c: E::Fr, scalars_and_bases: &Self)
        ensures
            final(self)@ == merged(old(self)@, c.value(), scalars_and_bases@, E::Fr::modulus()),
    {
        let walk = E::walk(&scalars_and_bases.base_scalar_map);
        assert(is_walk::<E>(walk@, scalars_and_bases@));
        let mut i: usize = 0;
        while i < walk.len()
            invariant
                i <= walk.len(),
                self@ == merged_so_far::<E>(old(self)@, c.value(), walk@, i as nat),
            decreases walk.len() - i,
        {
            let (base, scalar) = walk[i];
            self.push(c.mul(&scalar), base);
            i += 1;
        }
        proof {
            lemma_merged::<E>(old(self)@, c.value(), walk@, scalars_and_bases@);
        }
    }

    /// The sum of the bases, each multiplied by its scalar: the sum of
    /// products over the entries in the order of some walk of them.
    pub fn multi_scalar_mul(&self) -> (sum: E::G1Affine)
        ensures
            exists|walk: Seq<(E::G1Affine, E::Fr)>| #[trigger]
                is_walk::<E>(walk, self@) && E::point_view(sum) == E::msm_spec(
                    Seq::new(walk.len(), |i: int| E::point_view(walk[i].0)),
                    Seq::new(walk.len(), |i: int| walk[i].1.value()),
                ),
    {
        let walk = E::walk(&self.base_scalar_map);
        let mut bases: Vec<E::G1Affine> = Vec::new();
        let mut scalars: Vec<E::Fr> = Vec::new();
        let mut i: usize = 0;
        while i < walk.len()
            invariant
                i <= walk.len(),
                bases.len() == i,
                scalars.len() == i,
                forall|j: int| 0 <= j < i ==> (#[trigger] bases@[j]) == walk@[j].0,
                forall|j: int| 0 <= j < i ==> (#[trigger] scalars@[j]) == walk@[j].1,
            decreases walk.len() - i,
        {
            let (base, scalar) = walk[i];
            bases.push(base);
            scalars.push(scalar);
            i += 1;
        }
        let sum = E::sum_of_products(&bases, &scalars);
        proof {
            assert(Seq::new(bases@.len(), |i: int| E::point_view(bases@[i])) =~= Seq::new(
                walk@.len(),
                |i: int| E::point_view(walk@[i].0),
            ));
            assert(values(scalars@) =~= Seq::new(walk@.len(), |i: int| walk@[i].1.value()));
            assert(is_walk::<E>(walk@, self@));
        }
        sum
    }
}

} // verus!
