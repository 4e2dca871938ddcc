//! Prime fields as the library sees them: elements with a canonical value
//! below the modulus, and the two ring operations stated over that value.

use ark_std::rand::rngs::StdRng;
use crate::randomness::random_u64;
use vstd::arithmetic::div_mod::lemma_mod_twice;
use vstd::prelude::*;

verus! {

/// An element of the field of integers modulo `Self::modulus()`.
///
/// Every contract of the library speaks of an element through `value()`, its
/// canonical representative in `0..modulus()`.
pub trait PrimeField: Sized + Copy {
    /// The number of elements of the field.
    spec fn modulus() -> nat;

    /// The canonical representative of the element.
    spec fn value(&self) -> nat;

    /// The modulus is at least two and every value lies below it.
    proof fn lemma_canonical(&self)
        ensures
            Self::modulus() >= 2,
            self.value() < Self::modulus(),
    ;

    /// The element whose value is `x` reduced modulo the modulus.
    fn from_u64(x: u64) -> (r: Self)
        ensures
            r.value() == (x as nat) % Self::modulus(),
    ;

    /// The sum of two elements.
    fn add(&self, rhs: &Self) -> (r: Self)
        ensures
            r.value() == (self.value() + rhs.value()) % Self::modulus(),
    ;

    /// The product of two elements.
    fn mul(&self, rhs: &Self) -> (r: Self)
        ensures
            r.value() == (self.value() * rhs.value()) % Self::modulus(),
    ;

    /// The value of the element as a machine word, where it is one.
    fn to_word(&self) -> (word: Option<u64>)
        ensures
            word is Some <==> self.value() <= u64::MAX,
            word is Some ==> word->Some_0 == self.value(),
    ;

    /// An element drawn with the generator.
    fn random(rng: &mut StdRng) -> (r: Self)
    ;

    /// Whether two elements are the same element of the field.
    fn equals(&self, rhs: &Self) -> (r: bool)
        ensures
            r == (self.value() == rhs.value()),
    ;
}

/// The canonical values of a vector of field elements.
pub open spec fn values<F: PrimeField>(v: Seq<F>) -> Seq<nat> {
    Seq::new(v.len(), |i: int| v[i].value())
}

/// The canonical values of a sequence of columns, column by column.
pub open spec fn matrix_values<F: PrimeField>(m: Seq<Vec<F>>) -> Seq<Seq<nat>> {
    Seq::new(m.len(), |k: int| values(m[k]@))
}

/// Whether every entry of `v` lies below `p`.
pub open spec fn reduced(v: Seq<nat>, p: nat) -> bool {
    forall|i: int| 0 <= i < v.len() ==> #[trigger] v[i] < p
}

/// The values of field elements lie below the modulus.
pub proof fn lemma_values_reduced<F: PrimeField>(v: Seq<F>)
    ensures
        reduced(values(v), F::modulus()),
        values(v).len() == v.len(),
{
    assert forall|i: int| 0 <= i < values(v).len() implies #[trigger] values(v)[i]
        < F::modulus() by {
        v[i].lemma_canonical();
    }
}

/// A copy of a vector of field elements.
pub fn copy_elements<T: Copy>(v: &Vec<T>) -> (r: Vec<T>)
    ensures
        r@ == v@,
{
    let mut out: Vec<T> = Vec::new();
    let mut i: usize = 0;
    while i < v.len()
        invariant
            i <= v.len(),
            out@ == v@.subrange(0, i as int),
        decreases v.len() - i,
    {
        out.push(v[i]);
        i += 1;
        assert(out@ =~= v@.subrange(0, i as int));
    }
    assert(v@.subrange(0, v.len() as int) =~= v@);
    out
}

/// The modulus that `Zp<P>` computes with: `P`, or two where `P` is below two.
pub open spec fn zp_modulus(p: u64) -> nat {
    if p < 2 {
        2
    } else {
        p as nat
    }
}

/// An integer modulo `P`, held in one machine word.
#[derive(Clone, Copy, Debug)]
pub struct Zp<const P: u64> {
    repr: u64,
}

impl<const P: u64> Zp<P> {
    /// The modulus as a machine word.
    pub fn characteristic() -> (m: u64)
        ensures
            m as nat == zp_modulus(P),
    {
        if P < 2 {
            2
        } else {
            P
        }
    }

    /// The canonical representative as a machine word.
    pub fn to_u64(&self) -> (x: u64)
        ensures
            x as nat == self.value(),
    {
        self.repr % Self::characteristic()
    }
}

impl<const P: u64> PrimeField for Zp<P> {
    open spec fn modulus() -> nat {
        zp_modulus(P)
    }

    closed spec fn value(&self) -> nat {
        (self.repr as nat) % zp_modulus(P)
    }

    proof fn lemma_canonical(&self) {
    }

    fn from_u64(x: u64) -> (r: Self) {
        let m: u64 = Self::characteristic();
        proof {
            lemma_mod_twice(x as int, m as int);
        }
        Zp { repr: x % m }
    }

    fn to_word(&self) -> (word: Option<u64>) {
        Some(self.to_u64())
    }

    fn random(rng: &mut StdRng) -> (r: Self) {
        Self::from_u64(random_u64(rng))
    }

    fn add(&self, rhs: &Self) -> (r: Self) {
        let m: u128 = Self::characteristic() as u128;
        let a: u128 = (self.repr as u128) % m;
        let b: u128 = (rhs.repr as u128) % m;
        let s: u128 = (a + b) % m;
        proof {
            assert(a as nat == self.value());
            assert(b as nat == rhs.value());
            assert(s as int == (a as int + b as int) % (m as int));
            lemma_mod_twice(a as int + b as int, m as int);
        }
        Zp { repr: s as u64 }
    }

    fn mul(&self, rhs: &Self) -> (r: Self) {
        let m: u128 = Self::characteristic() as u128;
        let a: u128 = (self.repr as u128) % m;
        let b: u128 = (rhs.repr as u128) % m;
        assert(a * b <= 0xffff_ffff_ffff_ffff * 0xffff_ffff_ffff_ffff) by (nonlinear_arith)
            requires
                a <= 0xffff_ffff_ffff_ffff,
                b <= 0xffff_ffff_ffff_ffff,
        ;
        let s: u128 = (a * b) % m;
        proof {
            assert(a as nat == self.value());
            assert(b as nat == rhs.value());
            assert(s as int == (a as int * b as int) % (m as int));
            lemma_mod_twice(a as int * b as int, m as int);
        }
        Zp { repr: s as u64 }
    }

    fn equals(&self, rhs: &Self) -> (r: bool) {
        let m: u64 = Self::characteristic();
        self.repr % m == rhs.repr % m
    }
}

} // verus!
