//! The relaxed PLONK gate equation: what it says of one row of the trace,
//! what it says of a whole trace, and the cross term that folding two
//! traces brings about.

use crate::errors::SangriaError;
use crate::field::{copy_elements, matrix_values, reduced, values, PrimeField};
use crate::folding_scheme::{
    FoldingCommitmentConfig, SlackKey, SlackKeyView, WitnessKey, WitnessKeyView,
};
use crate::modular::{
    congruent, fold_mod, lemma_add_step, lemma_congruent_add, lemma_congruent_mod,
    lemma_congruent_mul, lemma_congruent_reduced, lemma_mul_step, same_shape,
};
use crate::relaxed_plonk::{
    rectangular, row_count, witness_group_values, CircuitView, InstanceView, PLONKCircuit,
    PLONKInstance, PLONKWitness, RelaxedInstanceView, RelaxedPLONKInstance, RelaxedPLONKWitness,
    RelaxedWitnessView, CONSTANT_SELECTOR_INDEX, LEFT_SELECTOR_INDEX, MULTIPLICATION_SELECTOR_INDEX,
    OUTPUT_SELECTOR_INDEX, RIGHT_SELECTOR_INDEX,
};
use crate::vector_commitment::HomomorphicCommitmentScheme;
use vstd::arithmetic::mul::{
    lemma_mul_is_associative, lemma_mul_is_commutative, lemma_mul_is_distributive_add,
    lemma_mul_is_distributive_add_other_way,
};
use vstd::prelude::*;

verus! {

/// The five selectors of one gate.
pub struct GateSelectors {
    /// `q_L`
    pub left: nat,
    /// `q_R`
    pub right: nat,
    /// `q_O`
    pub output: nat,
    /// `q_M`
    pub multiplication: nat,
    /// `q_C`
    pub constant: nat,
}

/// The scaling factor and the three wires that one gate reads.
pub struct GateWires {
    /// The scaling factor `u` of the instance.
    pub scaling: nat,
    /// The left wire `a`.
    pub left: nat,
    /// The right wire `b`.
    pub right: nat,
    /// The output wire `c`.
    pub output: nat,
}

/// The relaxed gate polynomial `u (q_L a + q_R b + q_O c) + q_M a b + u^2 q_C`
/// over the integers.
pub open spec fn gate_polynomial(q: GateSelectors, w: GateWires) -> nat {
    w.scaling * (q.left * w.left + q.right * w.right + q.output * w.output) + q.multiplication
        * w.left * w.right + w.scaling * w.scaling * q.constant
}

/// The coefficient of `r` in a gate's polynomial at `w1 + r * w2`.
pub open spec fn cross_polynomial(q: GateSelectors, w1: GateWires, w2: GateWires) -> nat {
    w1.scaling * (q.left * w2.left + q.right * w2.right + q.output * w2.output) + w2.scaling * (
    q.left * w1.left + q.right * w1.right + q.output * w1.output) + q.multiplication * (w1.left
        * w2.right + w2.left * w1.right) + 2 * w1.scaling * w2.scaling * q.constant
}

/// The value of a gate's polynomial in the field of `p` elements.
pub open spec fn gate_value(q: GateSelectors, w: GateWires, p: nat) -> nat {
    gate_polynomial(q, w) % p
}

/// The value of the cross term of one gate in the field of `p` elements.
pub open spec fn cross_value(q: GateSelectors, w1: GateWires, w2: GateWires, p: nat) -> nat {
    cross_polynomial(q, w1, w2) % p
}

/// The wires `w1 + r * w2` over the integers.
pub open spec fn combine_wires(w1: GateWires, w2: GateWires, r: nat) -> GateWires {
    GateWires {
        scaling: w1.scaling + r * w2.scaling,
        left: w1.left + r * w2.left,
        right: w1.right + r * w2.right,
        output: w1.output + r * w2.output,
    }
}

/// The wires `w1 + r * w2` in the field of `p` elements.
pub open spec fn fold_wires(w1: GateWires, w2: GateWires, r: nat, p: nat) -> GateWires {
    GateWires {
        scaling: fold_mod(w1.scaling, w2.scaling, r, p),
        left: fold_mod(w1.left, w2.left, r, p),
        right: fold_mod(w1.right, w2.right, r, p),
        output: fold_mod(w1.output, w2.output, r, p),
    }
}

/// Whether the wires of `v` and `w` are pairwise congruent modulo `p`.
pub open spec fn wires_congruent(v: GateWires, w: GateWires, p: nat) -> bool {
    &&& congruent(v.scaling, w.scaling, p)
    &&& congruent(v.left, w.left, p)
    &&& congruent(v.right, w.right, p)
    &&& congruent(v.output, w.output, p)
}

/// A gate's polynomial takes congruent values on congruent wires.
pub proof fn lemma_gate_congruent(q: GateSelectors, v: GateWires, w: GateWires, p: nat)
    requires
        p > 0,
        wires_congruent(v, w, p),
    ensures
        congruent(gate_polynomial(q, v), gate_polynomial(q, w), p),
{
    lemma_congruent_mul(q.left, q.left, v.left, w.left, p);
    lemma_congruent_mul(q.right, q.right, v.right, w.right, p);
    lemma_congruent_mul(q.output, q.output, v.output, w.output, p);
    lemma_congruent_add(q.left * v.left, q.left * w.left, q.right * v.right, q.right * w.right, p);
    lemma_congruent_add(
        q.left * v.left + q.right * v.right,
        q.left * w.left + q.right * w.right,
        q.output * v.output,
        q.output * w.output,
        p,
    );
    let sv = q.left * v.left + q.right * v.right + q.output * v.output;
    let sw = q.left * w.left + q.right * w.right + q.output * w.output;
    lemma_congruent_mul(v.scaling, w.scaling, sv, sw, p);
    lemma_congruent_mul(q.multiplication, q.multiplication, v.left, w.left, p);
    lemma_congruent_mul(
        q.multiplication * v.left,
        q.multiplication * w.left,
        v.right,
        w.right,
        p,
    );
    lemma_congruent_mul(v.scaling, w.scaling, v.scaling, w.scaling, p);
    lemma_congruent_mul(
        v.scaling * v.scaling,
        w.scaling * w.scaling,
        q.constant,
        q.constant,
        p,
    );
    lemma_congruent_add(
        v.scaling * sv,
        w.scaling * sw,
        q.multiplication * v.left * v.right,
        q.multiplication * w.left * w.right,
        p,
    );
    lemma_congruent_add(
        v.scaling * sv + q.multiplication * v.left * v.right,
        w.scaling * sw + q.multiplication * w.left * w.right,
        v.scaling * v.scaling * q.constant,
        w.scaling * w.scaling * q.constant,
        p,
    );
}

/// `(x1 + r x2)(y1 + r y2)` expanded in powers of `r`.
proof fn lemma_product_expansion(x1: int, x2: int, y1: int, y2: int, r: int)
    ensures
        (x1 + r * x2) * (y1 + r * y2) == x1 * y1 + r * (x1 * y2 + x2 * y1) + r * r * (x2 * y2),
{
    let x = x1 + r * x2;
    lemma_mul_is_distributive_add(x, y1, r * y2);
    lemma_mul_is_distributive_add_other_way(y1, x1, r * x2);
    lemma_mul_is_distributive_add_other_way(r * y2, x1, r * x2);
    assert((r * x2) * y1 == r * (x2 * y1)) by {
        lemma_mul_is_associative(r, x2, y1);
    }
    assert(x1 * (r * y2) == r * (x1 * y2)) by {
        lemma_mul_is_associative(x1, r, y2);
        lemma_mul_is_commutative(x1, r);
        lemma_mul_is_associative(r, x1, y2);
    }
    assert((r * x2) * (r * y2) == r * r * (x2 * y2)) by {
        lemma_mul_is_associative(r * x2, r, y2);
        lemma_mul_is_associative(r, x2, r);
        lemma_mul_is_commutative(x2, r);
        lemma_mul_is_associative(r, r, x2);
        lemma_mul_is_associative(r * r, x2, y2);
    }
    lemma_mul_is_distributive_add(r, x1 * y2, x2 * y1);
}

/// `q (k0 + r k1 + r r k2)` multiplied out.
proof fn lemma_scale_expansion(q: int, k0: int, k1: int, k2: int, r: int)
    ensures
        q * (k0 + r * k1 + r * r * k2) == q * k0 + r * (q * k1) + r * r * (q * k2),
{
    lemma_mul_is_distributive_add(q, k0 + r * k1, r * r * k2);
    lemma_mul_is_distributive_add(q, k0, r * k1);
    assert(q * (r * k1) == r * (q * k1)) by {
        lemma_mul_is_associative(q, r, k1);
        lemma_mul_is_commutative(q, r);
        lemma_mul_is_associative(r, q, k1);
    }
    assert(q * (r * r * k2) == r * r * (q * k2)) by {
        lemma_mul_is_associative(q, r * r, k2);
        lemma_mul_is_commutative(q, r * r);
        lemma_mul_is_associative(r * r, q, k2);
    }
}

/// A linear form of three terms at `w1 + r * w2`.
proof fn lemma_linear_expansion(
    ql: int,
    qr: int,
    qo: int,
    a1: int,
    b1: int,
    c1: int,
    a2: int,
    b2: int,
    c2: int,
    r: int,
)
    ensures
        ql * (a1 + r * a2) + qr * (b1 + r * b2) + qo * (c1 + r * c2) == (ql * a1 + qr * b1 + qo
            * c1) + r * (ql * a2 + qr * b2 + qo * c2),
{
    lemma_scale_expansion(ql, a1, a2, 0, r);
    lemma_scale_expansion(qr, b1, b2, 0, r);
    lemma_scale_expansion(qo, c1, c2, 0, r);
    lemma_mul_is_distributive_add(r, ql * a2 + qr * b2, qo * c2);
    lemma_mul_is_distributive_add(r, ql * a2, qr * b2);
}

/// Three expansions in powers of `r` add up coefficient by coefficient.
proof fn lemma_collect(
    k0: int,
    k1: int,
    k2: int,
    m0: int,
    m1: int,
    m2: int,
    n0: int,
    n1: int,
    n2: int,
    r: int,
)
    ensures
        (k0 + r * k1 + r * r * k2) + (m0 + r * m1 + r * r * m2) + (n0 + r * n1 + r * r * n2) == (
        k0 + m0 + n0) + r * (k1 + m1 + n1) + r * r * (k2 + m2 + n2),
{
    lemma_mul_is_distributive_add(r, k1 + m1, n1);
    lemma_mul_is_distributive_add(r, k1, m1);
    lemma_mul_is_distributive_add(r * r, k2 + m2, n2);
    lemma_mul_is_distributive_add(r * r, k2, m2);
}

/// A gate's polynomial at `w1 + r * w2`, expanded in powers of `r`: the
/// cross polynomial is the coefficient of `r`.
pub proof fn lemma_gate_expansion(q: GateSelectors, w1: GateWires, w2: GateWires, r: nat)
    ensures
        gate_polynomial(q, combine_wires(w1, w2, r)) == gate_polynomial(q, w1) + r
            * cross_polynomial(q, w1, w2) + r * r * gate_polynomial(q, w2),
{
    let (ql, qr, qo, qm, qc) = (
        q.left as int,
        q.right as int,
        q.output as int,
        q.multiplication as int,
        q.constant as int,
    );
    let (u1, a1, b1, c1) = (w1.scaling as int, w1.left as int, w1.right as int, w1.output as int);
    let (u2, a2, b2, c2) = (w2.scaling as int, w2.left as int, w2.right as int, w2.output as int);
    let r = r as int;
    let s1 = ql * a1 + qr * b1 + qo * c1;
    let s2 = ql * a2 + qr * b2 + qo * c2;
    // the linear part, scaled
    lemma_linear_expansion(ql, qr, qo, a1, b1, c1, a2, b2, c2, r);
    lemma_product_expansion(u1, u2, s1, s2, r);
    let k = (u1 + r * u2) * (ql * (a1 + r * a2) + qr * (b1 + r * b2) + qo * (c1 + r * c2));
    assert(k == u1 * s1 + r * (u1 * s2 + u2 * s1) + r * r * (u2 * s2));
    // the multiplication gate
    lemma_product_expansion(a1, a2, b1, b2, r);
    let ab = (a1 + r * a2) * (b1 + r * b2);
    let m = qm * (a1 + r * a2) * (b1 + r * b2);
    assert(m == qm * ab) by {
        lemma_mul_is_associative(qm, a1 + r * a2, b1 + r * b2);
    }
    lemma_scale_expansion(qm, a1 * b1, a1 * b2 + a2 * b1, a2 * b2, r);
    assert(qm * (a1 * b1) == qm * a1 * b1) by {
        lemma_mul_is_associative(qm, a1, b1);
    }
    assert(qm * (a2 * b2) == qm * a2 * b2) by {
        lemma_mul_is_associative(qm, a2, b2);
    }
    // the constant, scaled twice
    lemma_product_expansion(u1, u2, u1, u2, r);
    let uu = (u1 + r * u2) * (u1 + r * u2);
    let n = (u1 + r * u2) * (u1 + r * u2) * qc;
    assert(n == qc * uu) by {
        lemma_mul_is_commutative(uu, qc);
    }
    lemma_scale_expansion(qc, u1 * u1, u1 * u2 + u2 * u1, u2 * u2, r);
    assert(qc * (u1 * u1) == u1 * u1 * qc) by {
        lemma_mul_is_commutative(qc, u1 * u1);
    }
    assert(qc * (u2 * u2) == u2 * u2 * qc) by {
        lemma_mul_is_commutative(qc, u2 * u2);
    }
    assert(qc * (u1 * u2 + u2 * u1) == 2 * u1 * u2 * qc) by {
        lemma_mul_is_commutative(u2, u1);
        assert(u1 * u2 + u2 * u1 == 2 * (u1 * u2));
        lemma_mul_is_associative(2, u1, u2);
        lemma_mul_is_commutative(qc, 2 * u1 * u2);
    }
    lemma_collect(
        u1 * s1,
        u1 * s2 + u2 * s1,
        u2 * s2,
        qm * a1 * b1,
        qm * (a1 * b2 + a2 * b1),
        qm * a2 * b2,
        u1 * u1 * qc,
        2 * u1 * u2 * qc,
        u2 * u2 * qc,
        r,
    );
    assert(gate_polynomial(q, combine_wires(w1, w2, r as nat)) == k + m + n);
    assert(gate_polynomial(q, w1) == u1 * s1 + qm * a1 * b1 + u1 * u1 * qc);
    assert(gate_polynomial(q, w2) == u2 * s2 + qm * a2 * b2 + u2 * u2 * qc);
    assert(cross_polynomial(q, w1, w2) == (u1 * s2 + u2 * s1) + qm * (a1 * b2 + a2 * b1) + 2 * u1
        * u2 * qc);
}

/// `e1 + r * t + r^2 * e2` modulo `p`: the slack of a folded gate.
pub open spec fn fold_slack_mod(e1: nat, t: nat, e2: nat, r: nat, p: nat) -> nat {
    (e1 + r * t + r * r * e2) % p
}

/// One gate folds: if two gates take the values `e1` and `e2`, then on the
/// folded wires it takes the value `e1 + r t + r^2 e2`, where `t` is
/// the cross term of the two gates.
pub proof fn lemma_gate_folds(q: GateSelectors, w1: GateWires, w2: GateWires, r: nat, p: nat)
    requires
        p > 0,
    ensures
        gate_value(q, fold_wires(w1, w2, r, p), p) == fold_slack_mod(
            gate_value(q, w1, p),
            cross_value(q, w1, w2, p),
            gate_value(q, w2, p),
            r,
            p,
        ),
{
    let folded = fold_wires(w1, w2, r, p);
    let combined = combine_wires(w1, w2, r);
    lemma_congruent_mod(combined.scaling, p);
    lemma_congruent_mod(combined.left, p);
    lemma_congruent_mod(combined.right, p);
    lemma_congruent_mod(combined.output, p);
    lemma_gate_congruent(q, folded, combined, p);
    lemma_gate_expansion(q, w1, w2, r);
    let g1 = gate_polynomial(q, w1);
    let g2 = gate_polynomial(q, w2);
    let x = cross_polynomial(q, w1, w2);
    lemma_congruent_mod(g1, p);
    lemma_congruent_mod(g2, p);
    lemma_congruent_mod(x, p);
    lemma_congruent_mul(r, r, x % p, x, p);
    lemma_congruent_mul(r * r, r * r, g2 % p, g2, p);
    lemma_congruent_add(g1 % p, g1, r * (x % p), r * x, p);
    lemma_congruent_add(g1 % p + r * (x % p), g1 + r * x, r * r * (g2 % p), r * r * g2, p);
}

/// The selectors of one gate, by the values of five field elements.
pub open spec fn selectors_of<F: PrimeField>(ql: F, qr: F, qo: F, qm: F, qc: F) -> GateSelectors {
    GateSelectors {
        left: ql.value(),
        right: qr.value(),
        output: qo.value(),
        multiplication: qm.value(),
        constant: qc.value(),
    }
}

/// The wires of one gate, by the values of four field elements.
pub open spec fn wires_of<F: PrimeField>(u: F, a: F, b: F, c: F) -> GateWires {
    GateWires { scaling: u.value(), left: a.value(), right: b.value(), output: c.value() }
}

/// The linear form `q_L a + q_R b + q_O c` in the field.
fn linear_form<F: PrimeField>(ql: &F, qr: &F, qo: &F, a: &F, b: &F, c: &F) -> (s: F)
    ensures
        s.value() == (ql.value() * a.value() + qr.value() * b.value() + qo.value() * c.value())
            % F::modulus(),
{
    let la = ql.mul(a);
    let rb = qr.mul(b);
    let oc = qo.mul(c);
    let s1 = la.add(&rb);
    let s = s1.add(&oc);
    proof {
        let p = F::modulus();
        s.lemma_canonical();
        lemma_mul_step(la.value(), ql.value(), a.value(), ql.value(), a.value(), p);
        lemma_mul_step(rb.value(), qr.value(), b.value(), qr.value(), b.value(), p);
        lemma_mul_step(oc.value(), qo.value(), c.value(), qo.value(), c.value(), p);
        lemma_add_step(
            s1.value(),
            la.value(),
            rb.value(),
            ql.value() * a.value(),
            qr.value() * b.value(),
            p,
        );
        lemma_add_step(
            s.value(),
            s1.value(),
            oc.value(),
            ql.value() * a.value() + qr.value() * b.value(),
            qo.value() * c.value(),
            p,
        );
        lemma_congruent_reduced(
            s.value(),
            ql.value() * a.value() + qr.value() * b.value() + qo.value() * c.value(),
            p,
        );
    }
    s
}

/// The value of the relaxed gate polynomial on one row of the trace.
pub fn evaluate_gate<F: PrimeField>(
    ql: &F,
    qr: &F,
    qo: &F,
    qm: &F,
    qc: &F,
    u: &F,
    a: &F,
    b: &F,
    c: &F,
) -> (g: F)
    ensures
        g.value() == gate_value(
            selectors_of(*ql, *qr, *qo, *qm, *qc),
            wires_of(*u, *a, *b, *c),
            F::modulus(),
        ),
{
    let s = linear_form(ql, qr, qo, a, b, c);
    let us = u.mul(&s);
    let ma = qm.mul(a);
    let mab = ma.mul(b);
    let uu = u.mul(u);
    let uuc = uu.mul(qc);
    let t = us.add(&mab);
    let g = t.add(&uuc);
    proof {
        let p = F::modulus();
        g.lemma_canonical();
        let lin = ql.value() * a.value() + qr.value() * b.value() + qo.value() * c.value();
        lemma_congruent_mod(lin, p);
        lemma_mul_step(us.value(), u.value(), s.value(), u.value(), lin, p);
        lemma_mul_step(ma.value(), qm.value(), a.value(), qm.value(), a.value(), p);
        lemma_mul_step(mab.value(), ma.value(), b.value(), qm.value() * a.value(), b.value(), p);
        lemma_mul_step(uu.value(), u.value(), u.value(), u.value(), u.value(), p);
        lemma_mul_step(uuc.value(), uu.value(), qc.value(), u.value() * u.value(), qc.value(), p);
        lemma_add_step(
            t.value(),
            us.value(),
            mab.value(),
            u.value() * lin,
            qm.value() * a.value() * b.value(),
            p,
        );
        lemma_add_step(
            g.value(),
            t.value(),
            uuc.value(),
            u.value() * lin + qm.value() * a.value() * b.value(),
            u.value() * u.value() * qc.value(),
            p,
        );
        lemma_congruent_reduced(
            g.value(),
            gate_polynomial(selectors_of(*ql, *qr, *qo, *qm, *qc), wires_of(*u, *a, *b, *c)),
            p,
        );
    }
    g
}

/// The cross term of one row of two traces: the coefficient of the
/// challenge in the polynomial of the folded row.
pub fn evaluate_cross<F: PrimeField>(
    ql: &F,
    qr: &F,
    qo: &F,
    qm: &F,
    qc: &F,
    u1: &F,
    a1: &F,
    b1: &F,
    c1: &F,
    u2: &F,
    a2: &F,
    b2: &F,
    c2: &F,
) -> (t: F)
    ensures
        t.value() == cross_value(
            selectors_of(*ql, *qr, *qo, *qm, *qc),
            wires_of(*u1, *a1, *b1, *c1),
            wires_of(*u2, *a2, *b2, *c2),
            F::modulus(),
        ),
{
    let s1 = linear_form(ql, qr, qo, a1, b1, c1);
    let s2 = linear_form(ql, qr, qo, a2, b2, c2);
    let k1 = u1.mul(&s2);
    let k2 = u2.mul(&s1);
    let k = k1.add(&k2);
    let ab = a1.mul(b2);
    let ba = a2.mul(b1);
    let abba = ab.add(&ba);
    let m = qm.mul(&abba);
    let two = F::from_u64(2);
    let d1 = two.mul(u1);
    let d2 = d1.mul(u2);
    let d = d2.mul(qc);
    let km = k.add(&m);
    let t = km.add(&d);
    proof {
        let p = F::modulus();
        t.lemma_canonical();
        let lin1 = ql.value() * a1.value() + qr.value() * b1.value() + qo.value() * c1.value();
        let lin2 = ql.value() * a2.value() + qr.value() * b2.value() + qo.value() * c2.value();
        lemma_congruent_mod(lin1, p);
        lemma_congruent_mod(lin2, p);
        lemma_mul_step(k1.value(), u1.value(), s2.value(), u1.value(), lin2, p);
        lemma_mul_step(k2.value(), u2.value(), s1.value(), u2.value(), lin1, p);
        lemma_add_step(
            k.value(),
            k1.value(),
            k2.value(),
            u1.value() * lin2,
            u2.value() * lin1,
            p,
        );
        lemma_mul_step(ab.value(), a1.value(), b2.value(), a1.value(), b2.value(), p);
        lemma_mul_step(ba.value(), a2.value(), b1.value(), a2.value(), b1.value(), p);
        lemma_add_step(
            abba.value(),
            ab.value(),
            ba.value(),
            a1.value() * b2.value(),
            a2.value() * b1.value(),
            p,
        );
        lemma_mul_step(
            m.value(),
            qm.value(),
            abba.value(),
            qm.value(),
            a1.value() * b2.value() + a2.value() * b1.value(),
            p,
        );
        lemma_congruent_mod(2, p);
        lemma_mul_step(d1.value(), two.value(), u1.value(), 2, u1.value(), p);
        lemma_mul_step(d2.value(), d1.value(), u2.value(), 2 * u1.value(), u2.value(), p);
        lemma_mul_step(
            d.value(),
            d2.value(),
            qc.value(),
            2 * u1.value() * u2.value(),
            qc.value(),
            p,
        );
        lemma_add_step(
            km.value(),
            k.value(),
            m.value(),
            u1.value() * lin2 + u2.value() * lin1,
            qm.value() * (a1.value() * b2.value() + a2.value() * b1.value()),
            p,
        );
        lemma_add_step(
            t.value(),
            km.value(),
            d.value(),
            u1.value() * lin2 + u2.value() * lin1 + qm.value() * (a1.value() * b2.value()
                + a2.value() * b1.value()),
            2 * u1.value() * u2.value() * qc.value(),
            p,
        );
        lemma_congruent_reduced(
            t.value(),
            cross_polynomial(
                selectors_of(*ql, *qr, *qo, *qm, *qc),
                wires_of(*u1, *a1, *b1, *c1),
                wires_of(*u2, *a2, *b2, *c2),
            ),
            p,
        );
    }
    t
}

/// The number of selector columns of a circuit.
pub const NUMBER_OF_SELECTORS: usize = 5;

/// The number of wire columns of a trace.
pub const NUMBER_OF_WIRES: usize = 3;

/// Column `k` of the trace: the instance rows, then the witness rows.
pub open spec fn trace_column(instance: Seq<Seq<nat>>, witness: Seq<Seq<nat>>, k: int) -> Seq<
    nat,
> {
    instance[k] + witness[k]
}

/// The number of rows of the trace.
pub open spec fn trace_length(instance: Seq<Seq<nat>>, witness: Seq<Seq<nat>>) -> nat {
    row_count(instance) + row_count(witness)
}

/// Whether the two tables make up a trace: three wire columns each.
pub open spec fn tables_shaped(instance: Seq<Seq<nat>>, witness: Seq<Seq<nat>>) -> bool {
    &&& instance.len() == NUMBER_OF_WIRES
    &&& witness.len() == NUMBER_OF_WIRES
    &&& rectangular(instance)
    &&& rectangular(witness)
}

/// Whether the circuit has its five selector columns, each with one entry
/// for each of the `n` rows of a trace.
pub open spec fn circuit_shaped(selectors: Seq<Seq<nat>>, n: nat) -> bool {
    &&& selectors.len() == NUMBER_OF_SELECTORS
    &&& forall|k: int| 0 <= k < NUMBER_OF_SELECTORS ==> (#[trigger] selectors[k]).len() == n
}

/// The selectors of gate `j`.
pub open spec fn selectors_at(selectors: Seq<Seq<nat>>, j: int) -> GateSelectors {
    GateSelectors {
        left: selectors[LEFT_SELECTOR_INDEX as int][j],
        right: selectors[RIGHT_SELECTOR_INDEX as int][j],
        output: selectors[OUTPUT_SELECTOR_INDEX as int][j],
        multiplication: selectors[MULTIPLICATION_SELECTOR_INDEX as int][j],
        constant: selectors[CONSTANT_SELECTOR_INDEX as int][j],
    }
}

/// The wires that gate `j` reads from the trace, under scaling factor `u`.
pub open spec fn wires_at(
    u: nat,
    instance: Seq<Seq<nat>>,
    witness: Seq<Seq<nat>>,
    j: int,
) -> GateWires {
    GateWires {
        scaling: u,
        left: trace_column(instance, witness, 0)[j],
        right: trace_column(instance, witness, 1)[j],
        output: trace_column(instance, witness, 2)[j],
    }
}

/// The relaxed PLONK gate relation: the trace has the circuit's shape, and
/// on every row the relaxed gate polynomial takes the value that the slack
/// vector holds for that row.
pub open spec fn gates_hold<S, W>(
    circuit: CircuitView,
    x: RelaxedInstanceView<S, W>,
    w: RelaxedWitnessView,
    p: nat,
) -> bool {
    &&& tables_shaped(x.plonk_instance, w.plonk_witness)
    &&& circuit_shaped(circuit.selectors, trace_length(x.plonk_instance, w.plonk_witness))
    &&& w.slack_vector.len() == trace_length(x.plonk_instance, w.plonk_witness)
    &&& forall|j: int|
        0 <= j < trace_length(x.plonk_instance, w.plonk_witness) ==> gate_value(
            selectors_at(circuit.selectors, j),
            wires_at(x.scaling_factor, x.plonk_instance, w.plonk_witness, j),
            p,
        ) == #[trigger] w.slack_vector[j]
}

/// Whether two traces can be folded under the circuit: each is a trace,
/// their tables have the same shapes, and the circuit has one gate for each
/// row.
pub open spec fn traces_foldable<S, W>(
    circuit: CircuitView,
    x1: RelaxedInstanceView<S, W>,
    w1: RelaxedWitnessView,
    x2: RelaxedInstanceView<S, W>,
    w2: RelaxedWitnessView,
) -> bool {
    &&& tables_shaped(x1.plonk_instance, w1.plonk_witness)
    &&& same_shape(x1.plonk_instance, x2.plonk_instance)
    &&& same_shape(w1.plonk_witness, w2.plonk_witness)
    &&& circuit_shaped(circuit.selectors, trace_length(x1.plonk_instance, w1.plonk_witness))
}

/// The cross term of gate `j` of two traces.
pub open spec fn cross_term_at<S, W>(
    selectors: Seq<Seq<nat>>,
    x1: RelaxedInstanceView<S, W>,
    w1: RelaxedWitnessView,
    x2: RelaxedInstanceView<S, W>,
    w2: RelaxedWitnessView,
    p: nat,
    j: int,
) -> nat {
    cross_value(
        selectors_at(selectors, j),
        wires_at(x1.scaling_factor, x1.plonk_instance, w1.plonk_witness, j),
        wires_at(x2.scaling_factor, x2.plonk_instance, w2.plonk_witness, j),
        p,
    )
}

/// The cross-term vector of two traces: for every row, the coefficient of
/// the challenge in the polynomial of the folded row.
pub open spec fn cross_term<S, W>(
    circuit: CircuitView,
    x1: RelaxedInstanceView<S, W>,
    w1: RelaxedWitnessView,
    x2: RelaxedInstanceView<S, W>,
    w2: RelaxedWitnessView,
    p: nat,
) -> Seq<nat> {
    Seq::new(
        trace_length(x1.plonk_instance, w1.plonk_witness),
        |j: int| cross_term_at(circuit.selectors, x1, w1, x2, w2, p, j),
    )
}

/// The column `upper` followed by the column `lower`.
fn join_columns<F: PrimeField>(upper: &Vec<F>, lower: &Vec<F>) -> (joined: Vec<F>)
    ensures
        values(joined@) == values(upper@) + values(lower@),
        joined.len() == upper.len() + lower.len(),
{
    let mut out: Vec<F> = copy_elements(upper);
    let mut i: usize = 0;
    while i < lower.len()
        invariant
            i <= lower.len(),
            out@ == upper@ + lower@.subrange(0, i as int),
        decreases lower.len() - i,
    {
        out.push(lower[i]);
        i += 1;
        assert(out@ =~= upper@ + lower@.subrange(0, i as int));
    }
    assert(lower@.subrange(0, lower.len() as int) =~= lower@);
    assert(values(out@) =~= values(upper@) + values(lower@));
    out
}

/// The three wire columns of the trace that the two tables make up, or
/// nothing where one of them does not have three columns.
fn trace_columns<F: PrimeField>(instance: &PLONKInstance<F>, witness: &PLONKWitness<F>) -> (res:
    Option<Vec<Vec<F>>>)
    ensures
        res is Some <==> tables_shaped(instance@, witness@),
        rectangular(instance@),
        rectangular(witness@),
        res is Some ==> {
            let columns = res->Some_0;
            &&& columns.len() == NUMBER_OF_WIRES
            &&& forall|k: int|
                0 <= k < NUMBER_OF_WIRES ==> values((#[trigger] columns@[k])@) == trace_column(
                    instance@,
                    witness@,
                    k,
                ) && columns@[k].len() == trace_length(instance@, witness@)
        },
{
    let instance_columns = instance.num_columns();
    let witness_columns = witness.num_columns();
    if instance_columns != NUMBER_OF_WIRES || witness_columns != NUMBER_OF_WIRES {
        return None;
    }
    let mut columns: Vec<Vec<F>> = Vec::new();
    let mut k: usize = 0;
    while k < NUMBER_OF_WIRES
        invariant
            k <= NUMBER_OF_WIRES,
            columns.len() == k,
            instance@.len() == NUMBER_OF_WIRES,
            witness@.len() == NUMBER_OF_WIRES,
            rectangular(instance@),
            rectangular(witness@),
            forall|i: int|
                0 <= i < k ==> values((#[trigger] columns@[i])@) == trace_column(
                    instance@,
                    witness@,
                    i,
                ) && columns@[i].len() == trace_length(instance@, witness@),
        decreases NUMBER_OF_WIRES - k,
    {
        let upper = match instance.column(k) {
            Ok(column) => column,
            Err(_) => {
                return None;
            },
        };
        let lower = match witness.column(k) {
            Ok(column) => column,
            Err(_) => {
                return None;
            },
        };
        let joined = join_columns(&upper, &lower);
        proof {
            assert(instance@[k as int].len() == instance@[0].len());
            assert(witness@[k as int].len() == witness@[0].len());
            assert(values(upper@).len() == upper.len());
            assert(values(lower@).len() == lower.len());
        }
        columns.push(joined);
        k += 1;
    }
    Some(columns)
}

/// Whether `selectors` are the five selector columns of a circuit with `n`
/// gates.
fn selectors_shaped<F: PrimeField>(selectors: &Vec<Vec<F>>, n: usize) -> (ok: bool)
    ensures
        ok == circuit_shaped(matrix_values(selectors@), n as nat),
{
    if selectors.len() != NUMBER_OF_SELECTORS {
        return false;
    }
    let mut k: usize = 0;
    while k < NUMBER_OF_SELECTORS
        invariant
            k <= NUMBER_OF_SELECTORS,
            selectors.len() == NUMBER_OF_SELECTORS,
            forall|i: int| 0 <= i < k ==> (#[trigger] selectors@[i]).len() == n,
        decreases NUMBER_OF_SELECTORS - k,
    {
        if selectors[k].len() != n {
            assert(matrix_values(selectors@)[k as int].len() != n);
            return false;
        }
        k += 1;
    }
    assert forall|i: int| 0 <= i < NUMBER_OF_SELECTORS implies (#[trigger] matrix_values(
        selectors@,
    )[i]).len() == n by {
        assert(selectors@[i].len() == n);
    }
    true
}

/// Whether the relaxed gate relation holds of the circuit, the instance and
/// the witness.
pub fn gates_satisfied<F: PrimeField, Comm: FoldingCommitmentConfig<F>>(
    circuit: &PLONKCircuit<F>,
    instance: &RelaxedPLONKInstance<F, Comm>,
    witness: &RelaxedPLONKWitness<F>,
) -> (ok: bool)
    ensures
        ok == gates_hold(circuit@, instance@, witness@, F::modulus()),
{
    let columns = match trace_columns(instance.plonk_instance(), witness.plonk_witness()) {
        Some(columns) => columns,
        None => {
            return false;
        },
    };
    let n = columns[0].len();
    let selectors = circuit.selectors();
    if !selectors_shaped(&selectors, n) {
        return false;
    }
    let slack = witness.slack_vector();
    if slack.len() != n {
        assert(values(slack@).len() == slack.len());
        return false;
    }
    let u = instance.scaling_factor();
    let ghost x = instance@;
    let ghost w = witness@;
    let ghost sel = circuit@.selectors;
    let mut j: usize = 0;
    while j < n
        invariant
            j <= n,
            x == instance@,
            w == witness@,
            sel == circuit@.selectors,
            tables_shaped(x.plonk_instance, w.plonk_witness),
            n == trace_length(x.plonk_instance, w.plonk_witness),
            columns.len() == NUMBER_OF_WIRES,
            forall|k: int|
                0 <= k < NUMBER_OF_WIRES ==> values((#[trigger] columns@[k])@) == trace_column(
                    x.plonk_instance,
                    w.plonk_witness,
                    k,
                ) && columns@[k].len() == n,
            matrix_values(selectors@) == sel,
            circuit_shaped(sel, n as nat),
            values(slack@) == w.slack_vector,
            slack.len() == n,
            u.value() == x.scaling_factor,
            forall|i: int|
                0 <= i < j ==> gate_value(
                    selectors_at(sel, i),
                    wires_at(x.scaling_factor, x.plonk_instance, w.plonk_witness, i),
                    F::modulus(),
                ) == #[trigger] w.slack_vector[i],
        decreases n - j,
    {
        proof {
            assert(forall|k: int|
                0 <= k < NUMBER_OF_SELECTORS ==> (#[trigger] matrix_values(selectors@)[k]).len()
                    == n);
            assert(matrix_values(selectors@)[0].len() == n);
            assert(matrix_values(selectors@)[1].len() == n);
            assert(matrix_values(selectors@)[2].len() == n);
            assert(matrix_values(selectors@)[3].len() == n);
            assert(matrix_values(selectors@)[4].len() == n);
        }
        let g = evaluate_gate(
            &selectors[LEFT_SELECTOR_INDEX][j],
            &selectors[RIGHT_SELECTOR_INDEX][j],
            &selectors[OUTPUT_SELECTOR_INDEX][j],
            &selectors[MULTIPLICATION_SELECTOR_INDEX][j],
            &selectors[CONSTANT_SELECTOR_INDEX][j],
            &u,
            &columns[0][j],
            &columns[1][j],
            &columns[2][j],
        );
        proof {
            assert(values(columns@[0]@)[j as int] == columns@[0]@[j as int].value());
            assert(values(columns@[1]@)[j as int] == columns@[1]@[j as int].value());
            assert(values(columns@[2]@)[j as int] == columns@[2]@[j as int].value());
            assert(selectors_of(
                selectors@[0]@[j as int],
                selectors@[1]@[j as int],
                selectors@[2]@[j as int],
                selectors@[3]@[j as int],
                selectors@[4]@[j as int],
            ) == selectors_at(sel, j as int));
            assert(wires_of(
                u,
                columns@[0]@[j as int],
                columns@[1]@[j as int],
                columns@[2]@[j as int],
            ) == wires_at(x.scaling_factor, x.plonk_instance, w.plonk_witness, j as int));
            assert(values(slack@)[j as int] == slack@[j as int].value());
        }
        if !g.equals(&slack[j]) {
            assert(gate_value(
                selectors_at(sel, j as int),
                wires_at(x.scaling_factor, x.plonk_instance, w.plonk_witness, j as int),
                F::modulus(),
            ) != w.slack_vector[j as int]);
            return false;
        }
        j += 1;
    }
    true
}

/// The cross-term vector of two instance-witness pairs under the circuit,
/// or `IndexOutOfBounds` where the two traces cannot be folded.
pub fn compute_cross_term<F: PrimeField, Comm: FoldingCommitmentConfig<F>>(
    circuit: &PLONKCircuit<F>,
    left_instance: &RelaxedPLONKInstance<F, Comm>,
    left_witness: &RelaxedPLONKWitness<F>,
    right_instance: &RelaxedPLONKInstance<F, Comm>,
    right_witness: &RelaxedPLONKWitness<F>,
) -> (res: Result<Vec<F>, SangriaError>)
    ensures
        traces_foldable(
            circuit@,
            left_instance@,
            left_witness@,
            right_instance@,
            right_witness@,
        ) ==> res is Ok && values(res->Ok_0@) == cross_term(
            circuit@,
            left_instance@,
            left_witness@,
            right_instance@,
            right_witness@,
            F::modulus(),
        ),
        !traces_foldable(
            circuit@,
            left_instance@,
            left_witness@,
            right_instance@,
            right_witness@,
        ) ==> res == Err::<Vec<F>, SangriaError>(SangriaError::IndexOutOfBounds),
{
    let same_instances = left_instance.plonk_instance().same_shape_as(
        right_instance.plonk_instance(),
    );
    let same_witnesses = left_witness.plonk_witness().same_shape_as(
        right_witness.plonk_witness(),
    );
    if !same_instances || !same_witnesses {
        return Err(SangriaError::IndexOutOfBounds);
    }
    let left = match trace_columns(left_instance.plonk_instance(), left_witness.plonk_witness()) {
        Some(columns) => columns,
        None => {
            return Err(SangriaError::IndexOutOfBounds);
        },
    };
    let right = match trace_columns(
        right_instance.plonk_instance(),
        right_witness.plonk_witness(),
    ) {
        Some(columns) => columns,
        None => {
            return Err(SangriaError::IndexOutOfBounds);
        },
    };
    let n = left[0].len();
    let selectors = circuit.selectors();
    if !selectors_shaped(&selectors, n) {
        return Err(SangriaError::IndexOutOfBounds);
    }
    let u1 = left_instance.scaling_factor();
    let u2 = right_instance.scaling_factor();
    let ghost x1 = left_instance@;
    let ghost w1 = left_witness@;
    let ghost x2 = right_instance@;
    let ghost w2 = right_witness@;
    let ghost sel = circuit@.selectors;
    proof {
        assert(x1.plonk_instance[0].len() == x2.plonk_instance[0].len());
        assert(w1.plonk_witness[0].len() == w2.plonk_witness[0].len());
    }
    let mut out: Vec<F> = Vec::new();
    let mut j: usize = 0;
    while j < n
        invariant
            j <= n,
            out.len() == j,
            n == trace_length(x1.plonk_instance, w1.plonk_witness),
            n == trace_length(x2.plonk_instance, w2.plonk_witness),
            left.len() == NUMBER_OF_WIRES,
            right.len() == NUMBER_OF_WIRES,
            forall|k: int|
                0 <= k < NUMBER_OF_WIRES ==> values((#[trigger] left@[k])@) == trace_column(
                    x1.plonk_instance,
                    w1.plonk_witness,
                    k,
                ) && left@[k].len() == n,
            forall|k: int|
                0 <= k < NUMBER_OF_WIRES ==> values((#[trigger] right@[k])@) == trace_column(
                    x2.plonk_instance,
                    w2.plonk_witness,
                    k,
                ) && right@[k].len() == n,
            matrix_values(selectors@) == sel,
            circuit_shaped(sel, n as nat),
            u1.value() == x1.scaling_factor,
            u2.value() == x2.scaling_factor,
            forall|i: int|
                0 <= i < j ==> (#[trigger] out@[i]).value() == cross_term_at(
                    sel,
                    x1,
                    w1,
                    x2,
                    w2,
                    F::modulus(),
                    i,
                ),
        decreases n - j,
    {
        proof {
            assert(matrix_values(selectors@)[0].len() == n);
            assert(matrix_values(selectors@)[1].len() == n);
            assert(matrix_values(selectors@)[2].len() == n);
            assert(matrix_values(selectors@)[3].len() == n);
            assert(matrix_values(selectors@)[4].len() == n);
        }
        let t = evaluate_cross(
            &selectors[LEFT_SELECTOR_INDEX][j],
            &selectors[RIGHT_SELECTOR_INDEX][j],
            &selectors[OUTPUT_SELECTOR_INDEX][j],
            &selectors[MULTIPLICATION_SELECTOR_INDEX][j],
            &selectors[CONSTANT_SELECTOR_INDEX][j],
            &u1,
            &left[0][j],
            &left[1][j],
            &left[2][j],
            &u2,
            &right[0][j],
            &right[1][j],
            &right[2][j],
        );
        proof {
            assert(values(left@[0]@)[j as int] == left@[0]@[j as int].value());
            assert(values(left@[1]@)[j as int] == left@[1]@[j as int].value());
            assert(values(left@[2]@)[j as int] == left@[2]@[j as int].value());
            assert(values(right@[0]@)[j as int] == right@[0]@[j as int].value());
            assert(values(right@[1]@)[j as int] == right@[1]@[j as int].value());
            assert(values(right@[2]@)[j as int] == right@[2]@[j as int].value());
            assert(selectors_of(
                selectors@[0]@[j as int],
                selectors@[1]@[j as int],
                selectors@[2]@[j as int],
                selectors@[3]@[j as int],
                selectors@[4]@[j as int],
            ) == selectors_at(sel, j as int));
            assert(wires_of(u1, left@[0]@[j as int], left@[1]@[j as int], left@[2]@[j as int])
                == wires_at(x1.scaling_factor, x1.plonk_instance, w1.plonk_witness, j as int));
            assert(wires_of(u2, right@[0]@[j as int], right@[1]@[j as int], right@[2]@[j as int])
                == wires_at(x2.scaling_factor, x2.plonk_instance, w2.plonk_witness, j as int));
        }
        out.push(t);
        j += 1;
    }
    assert(values(out@) =~= cross_term(circuit@, x1, w1, x2, w2, F::modulus()));
    Ok(out)
}

/// Whether every entry of the table lies below `p`.
pub open spec fn table_reduced(m: Seq<Seq<nat>>, p: nat) -> bool {
    forall|k: int| 0 <= k < m.len() ==> reduced(#[trigger] m[k], p)
}

/// Whether the witness commitments of the instance open to the witness:
/// there is one commitment and one blinding factor for each witness column,
/// and each commitment is the commitment to its column under its blinding
/// factor.
pub open spec fn witness_commitments_open<F: PrimeField, Comm: FoldingCommitmentConfig<F>>(
    key: WitnessKeyView<F, Comm>,
    x: InstanceView<F, Comm>,
    w: RelaxedWitnessView,
) -> bool {
    &&& x.witness_commitments.len() == w.plonk_witness.len()
    &&& w.commitment_hidings.len() == w.plonk_witness.len()
    &&& forall|i: int|
        0 <= i < w.plonk_witness.len() ==> (#[trigger] w.plonk_witness[i]).len()
            == Comm::CommitmentWitness::key_length(key) && x.witness_commitments[i]
            == Comm::CommitmentWitness::commit_spec(
            key,
            w.plonk_witness[i],
            w.commitment_hidings[i],
        )
}

/// Whether the slack commitment of the instance opens to the slack vector
/// of the witness under the given blinding.
pub open spec fn slack_commitment_opens<F: PrimeField, Comm: FoldingCommitmentConfig<F>>(
    key: SlackKeyView<F, Comm>,
    x: InstanceView<F, Comm>,
    w: RelaxedWitnessView,
    blinding: nat,
) -> bool {
    &&& w.slack_vector.len() == Comm::CommitmentSlack::key_length(key)
    &&& x.slack_commitment == Comm::CommitmentSlack::commit_spec(key, w.slack_vector, blinding)
}

/// Whether the witness commitments of the instance open to the witness.
pub fn witness_commitments_satisfied<F: PrimeField, Comm: FoldingCommitmentConfig<F>>(
    key: &WitnessKey<F, Comm>,
    instance: &RelaxedPLONKInstance<F, Comm>,
    witness: &RelaxedPLONKWitness<F>,
) -> (ok: bool)
    ensures
        ok == witness_commitments_open::<F, Comm>(
            Comm::CommitmentWitness::key_view(key),
            instance@,
            witness@,
        ),
{
    let commitments = instance.witness_commitments();
    let columns = witness.plonk_witness().num_columns();
    proof {
        assert(witness_group_values::<F, Comm>(commitments@).len() == commitments.len());
    }
    if commitments.len() != columns {
        return false;
    }
    let ghost view = Comm::CommitmentWitness::key_view(key);
    let mut i: usize = 0;
    while i < columns
        invariant
            i <= columns,
            view == Comm::CommitmentWitness::key_view(key),
            columns == witness@.plonk_witness.len(),
            commitments.len() == columns,
            witness@.commitment_hidings.len() == columns,
            witness_group_values::<F, Comm>(commitments@) == instance@.witness_commitments,
            forall|k: int|
                0 <= k < i ==> (#[trigger] witness@.plonk_witness[k]).len()
                    == Comm::CommitmentWitness::key_length(view) && instance@.witness_commitments[k]
                    == Comm::CommitmentWitness::commit_spec(
                    view,
                    witness@.plonk_witness[k],
                    witness@.commitment_hidings[k],
                ),
        decreases columns - i,
    {
        let (column, hiding) = match witness.witness_column_with_rand(i) {
            Ok(pair) => pair,
            Err(_) => {
                return false;
            },
        };
        proof {
            assert(values(column@).len() == column.len());
            assert(witness_group_values::<F, Comm>(commitments@)[i as int]
                == Comm::CommitmentWitness::group_value(&commitments@[i as int]));
        }
        let recomputed = match Comm::CommitmentWitness::commit(key, &column, hiding) {
            Ok(commitment) => commitment,
            Err(_) => {
                assert(witness@.plonk_witness[i as int].len()
                    != Comm::CommitmentWitness::key_length(view));
                return false;
            },
        };
        if !Comm::CommitmentWitness::same_commitment(&recomputed, &commitments[i]) {
            assert(instance@.witness_commitments[i as int]
                != Comm::CommitmentWitness::commit_spec(
                view,
                witness@.plonk_witness[i as int],
                witness@.commitment_hidings[i as int],
            ));
            return false;
        }
        i += 1;
    }
    true
}

/// Whether the slack commitment of the instance opens to the slack vector
/// of the witness under the given blinding.
pub fn slack_commitment_satisfied<F: PrimeField, Comm: FoldingCommitmentConfig<F>>(
    key: &SlackKey<F, Comm>,
    instance: &RelaxedPLONKInstance<F, Comm>,
    witness: &RelaxedPLONKWitness<F>,
    blinding: F,
) -> (ok: bool)
    ensures
        ok == slack_commitment_opens::<F, Comm>(
            Comm::CommitmentSlack::key_view(key),
            instance@,
            witness@,
            blinding.value(),
        ),
{
    let slack = witness.slack_vector();
    proof {
        assert(values(slack@).len() == slack.len());
    }
    match Comm::CommitmentSlack::commit(key, &slack, blinding) {
        Ok(recomputed) => Comm::CommitmentSlack::same_commitment(
            &recomputed,
            &instance.slack_commitment(),
        ),
        Err(_) => false,
    }
}

/// The cells of the trace in one vector: the left wires of all rows, then
/// the right wires, then the output wires.
pub open spec fn trace_cells(instance: Seq<Seq<nat>>, witness: Seq<Seq<nat>>) -> Seq<nat> {
    trace_column(instance, witness, 0) + trace_column(instance, witness, 1) + trace_column(
        instance,
        witness,
        2,
    )
}

/// The copy constraints of the circuit: its permutation names, for every
/// cell of the trace, a cell that holds the same value.
pub open spec fn copy_constraints_hold<S, W>(
    circuit: CircuitView,
    x: RelaxedInstanceView<S, W>,
    w: RelaxedWitnessView,
) -> bool {
    let cells = trace_cells(x.plonk_instance, w.plonk_witness);
    &&& tables_shaped(x.plonk_instance, w.plonk_witness)
    &&& circuit.copy_constraint.len() == cells.len()
    &&& forall|k: int|
        0 <= k < cells.len() ==> (#[trigger] circuit.copy_constraint[k]) < cells.len() && cells[k]
            == cells[circuit.copy_constraint[k] as int]
}

/// Whether the copy constraints of the circuit hold of the instance and
/// the witness.
pub fn copy_constraints_satisfied<F: PrimeField, Comm: FoldingCommitmentConfig<F>>(
    circuit: &PLONKCircuit<F>,
    instance: &RelaxedPLONKInstance<F, Comm>,
    witness: &RelaxedPLONKWitness<F>,
) -> (ok: bool)
    ensures
        ok == copy_constraints_hold(circuit@, instance@, witness@),
{
    let columns = match trace_columns(instance.plonk_instance(), witness.plonk_witness()) {
        Some(columns) => columns,
        None => {
            return false;
        },
    };
    let left_and_right = join_columns(&columns[0], &columns[1]);
    let cells = join_columns(&left_and_right, &columns[2]);
    let permutation = circuit.copy_constraint();
    let ghost all = trace_cells(instance@.plonk_instance, witness@.plonk_witness);
    proof {
        assert(values(permutation@).len() == permutation.len());
        assert(values(cells@).len() == cells.len());
        assert(values(cells@) =~= all);
    }
    if permutation.len() != cells.len() {
        return false;
    }
    let mut k: usize = 0;
    while k < cells.len()
        invariant
            k <= cells.len(),
            permutation.len() == cells.len(),
            values(cells@) == all,
            all == trace_cells(instance@.plonk_instance, witness@.plonk_witness),
            values(permutation@) == circuit@.copy_constraint,
            tables_shaped(instance@.plonk_instance, witness@.plonk_witness),
            forall|i: int|
                0 <= i < k ==> (#[trigger] circuit@.copy_constraint[i]) < all.len() && all[i]
                    == all[circuit@.copy_constraint[i] as int],
        decreases cells.len() - k,
    {
        proof {
            assert(values(permutation@)[k as int] == permutation@[k as int].value());
            assert(values(cells@)[k as int] == cells@[k as int].value());
        }
        let target = match permutation[k].to_word() {
            Some(word) => word,
            None => {
                assert(circuit@.copy_constraint[k as int] >= all.len());
                return false;
            },
        };
        if target >= cells.len() as u64 {
            assert(circuit@.copy_constraint[k as int] >= all.len());
            return false;
        }
        let other = target as usize;
        proof {
            assert(values(cells@)[other as int] == cells@[other as int].value());
        }
        if !cells[k].equals(&cells[other]) {
            assert(all[k as int] != all[circuit@.copy_constraint[k as int] as int]);
            return false;
        }
        k += 1;
    }
    true
}

} // verus!
