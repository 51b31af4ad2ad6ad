//! Arithmetic in the scalar field of the BN254 curve, in which circuit wires
//! hold their values. An element is held in four little-endian 64-bit limbs.

use vstd::prelude::*;
use vstd::arithmetic::div_mod::{
    lemma_add_mod_noop, lemma_fundamental_div_mod_converse, lemma_mul_mod_noop_left,
};

verus! {

/// The limbs of the field order, least significant first.
pub const ORDER_L0: u64 = 0x43e1f593f0000001;

pub const ORDER_L1: u64 = 0x2833e84879b97091;

pub const ORDER_L2: u64 = 0xb85045b68181585d;

pub const ORDER_L3: u64 = 0x30644e72e131a029;

/// The number just above every four-limb number.
pub open spec fn limb_bound() -> nat {
    0x1_0000_0000_0000_0000 * (0x1_0000_0000_0000_0000 * (0x1_0000_0000_0000_0000 * 0x1_0000_0000_0000_0000))
}

/// The order of the field, the prime
/// 21888242871839275222246405745257275088548364400416034343698204186575808495617.
pub open spec fn field_order() -> nat {
    ORDER_L0 as nat + 0x1_0000_0000_0000_0000 * (ORDER_L1 as nat + 0x1_0000_0000_0000_0000 * (ORDER_L2 as nat + 0x1_0000_0000_0000_0000
        * ORDER_L3 as nat))
}

/// A field element as four limbs, least significant first. Any limbs are a
/// valid value; the element they stand for is their number reduced modulo the order.
#[derive(Clone, Copy, Debug, PartialEq, Eq, Structural)]
pub struct Scalar {
    pub l0: u64,
    pub l1: u64,
    pub l2: u64,
    pub l3: u64,
}

impl Scalar {
    /// The number that the limbs spell.
    pub open spec fn value(self) -> nat {
        self.l0 as nat + 0x1_0000_0000_0000_0000 * (self.l1 as nat + 0x1_0000_0000_0000_0000 * (self.l2 as nat
            + 0x1_0000_0000_0000_0000 * self.l3 as nat))
    }

    /// The field element of a small integer.
    pub fn from_u64(n: u64) -> (r: Scalar)
        ensures
            r.value() == n as nat,
            r.value() < field_order(),
    {
        Scalar { l0: n, l1: 0, l2: 0, l3: 0 }
    }

    pub fn zero() -> (r: Scalar)
        ensures
            r.value() == 0,
    {
        Scalar::from_u64(0)
    }

    pub fn one() -> (r: Scalar)
        ensures
            r.value() == 1,
    {
        Scalar::from_u64(1)
    }
}

/// The field element that a value stands for.
pub open spec fn reduce(x: Scalar) -> nat {
    x.value() % field_order()
}

/// Field addition on representatives.
pub open spec fn add_spec(a: nat, b: nat) -> nat {
    (a + b) % field_order()
}

/// Field multiplication on representatives.
pub open spec fn mul_spec(a: nat, b: nat) -> nat {
    (a * b) % field_order()
}

/// The sum of a sequence of values in the field, accumulated left to right.
pub open spec fn sum_spec(s: Seq<Scalar>) -> nat
    decreases s.len(),
{
    if s.len() == 0 {
        0
    } else {
        add_spec(sum_spec(s.drop_last()), s.last().value())
    }
}

/// The product of a sequence of values in the field, accumulated left to right.
pub open spec fn product_spec(s: Seq<Scalar>) -> nat
    decreases s.len(),
{
    if s.len() == 0 {
        1
    } else {
        mul_spec(product_spec(s.drop_last()), s.last().value())
    }
}

/// Adds two limbs and a carry.
fn add_limb(x: u64, y: u64, c: u64) -> (r: (u64, u64))
    requires
        c <= 1,
    ensures
        r.0 as nat + r.1 as nat * 0x1_0000_0000_0000_0000 == x as nat + y as nat + c as nat,
        r.1 <= 1,
{
    let s: u128 = x as u128 + y as u128 + c as u128;
    ((s % 0x1_0000_0000_0000_0000) as u64, (s / 0x1_0000_0000_0000_0000) as u64)
}

/// Subtracts a limb and a borrow.
fn sub_limb(x: u64, y: u64, b: u64) -> (r: (u64, u64))
    requires
        b <= 1,
    ensures
        r.0 as int + y as int + b as int == x as int + r.1 as int * 0x1_0000_0000_0000_0000,
        r.1 <= 1,
{
    if x as u128 >= y as u128 + b as u128 {
        (x - y - b, 0)
    } else {
        ((x as u128 + 0x1_0000_0000_0000_0000 - y as u128 - b as u128) as u64, 1)
    }
}

/// Whether the limbs spell a number at least the order.
fn ge_order(x: Scalar) -> (r: bool)
    ensures
        r == (x.value() >= field_order()),
{
    if x.l3 != ORDER_L3 {
        x.l3 > ORDER_L3
    } else if x.l2 != ORDER_L2 {
        x.l2 > ORDER_L2
    } else if x.l1 != ORDER_L1 {
        x.l1 > ORDER_L1
    } else {
        x.l0 >= ORDER_L0
    }
}

/// Subtracts the order from a number at least the order.
fn sub_order(x: Scalar) -> (r: Scalar)
    requires
        x.value() >= field_order(),
    ensures
        r.value() == x.value() - field_order(),
{
    let (d0, b0) = sub_limb(x.l0, ORDER_L0, 0);
    let (d1, b1) = sub_limb(x.l1, ORDER_L1, b0);
    let (d2, b2) = sub_limb(x.l2, ORDER_L2, b1);
    let (d3, b3) = sub_limb(x.l3, ORDER_L3, b2);
    Scalar { l0: d0, l1: d1, l2: d2, l3: d3 }
}

/// The canonical limbs of a value: the value reduced modulo the order.
pub fn canonical(x: Scalar) -> (r: Scalar)
    ensures
        r.value() == reduce(x),
        r.value() < field_order(),
{
    let mut cur = x;
    let ghost mut k: int = 0;
    while ge_order(cur)
        invariant
            k >= 0,
            x.value() == cur.value() + k * field_order(),
        decreases cur.value(),
    {
        cur = sub_order(cur);
        proof {
            assert((k + 1) * field_order() == k * field_order() + field_order())
                by (nonlinear_arith);
            k = k + 1;
        }
    }
    proof {
        lemma_fundamental_div_mod_converse(x.value() as int, field_order() as int, k, cur.value() as int);
    }
    cur
}

/// Adds two canonical values.
fn add_canonical(a: Scalar, b: Scalar) -> (r: Scalar)
    requires
        a.value() < field_order(),
        b.value() < field_order(),
    ensures
        r.value() == add_spec(a.value(), b.value()),
        r.value() < field_order(),
{
    let (s0, c0) = add_limb(a.l0, b.l0, 0);
    let (s1, c1) = add_limb(a.l1, b.l1, c0);
    let (s2, c2) = add_limb(a.l2, b.l2, c1);
    let (s3, c3) = add_limb(a.l3, b.l3, c2);
    let s = Scalar { l0: s0, l1: s1, l2: s2, l3: s3 };
    assert(s.value() + c3 as nat * limb_bound() == a.value() + b.value());
    if ge_order(s) {
        let r = sub_order(s);
        proof {
            lemma_fundamental_div_mod_converse(
                (a.value() + b.value()) as int,
                field_order() as int,
                1,
                r.value() as int,
            );
        }
        r
    } else {
        proof {
            lemma_fundamental_div_mod_converse(
                (a.value() + b.value()) as int,
                field_order() as int,
                0,
                s.value() as int,
            );
        }
        s
    }
}

/// Adds two field values; the result is canonical.
pub fn field_add(a: Scalar, b: Scalar) -> (r: Scalar)
    ensures
        r.value() == add_spec(a.value(), b.value()),
        r.value() < field_order(),
{
    let ca = canonical(a);
    let cb = canonical(b);
    proof {
        lemma_add_mod_noop(a.value() as int, b.value() as int, field_order() as int);
    }
    add_canonical(ca, cb)
}

proof fn lemma_halve(x: u64, y: u64)
    ensures
        x >> 1u64 == x / 2,
        x & 1u64 == x % 2,
        ((x >> 1u64) | (y << 63u64)) as nat == (x / 2) as nat + (y % 2) as nat
            * 0x8000_0000_0000_0000,
{
    assert(x >> 1u64 == x / 2) by (bit_vector);
    assert(x & 1u64 == x % 2) by (bit_vector);
    assert(y % 2 == 0 ==> (x >> 1u64) | (y << 63u64) == x >> 1u64) by (bit_vector);
    assert(y % 2 == 1 ==> (x >> 1u64) | (y << 63u64) == (x >> 1u64) | 0x8000_0000_0000_0000u64)
        by (bit_vector);
    assert((x >> 1u64) | 0x8000_0000_0000_0000u64 == (x >> 1u64) + 0x8000_0000_0000_0000u64)
        by (bit_vector);
}

/// Halves the number that the limbs spell, returning the lowest bit.
fn shift_right(x: Scalar) -> (r: (Scalar, u64))
    ensures
        x.value() == 2 * r.0.value() + r.1 as nat,
        r.1 <= 1,
{
    proof {
        lemma_halve(x.l0, x.l1);
        lemma_halve(x.l1, x.l2);
        lemma_halve(x.l2, x.l3);
        lemma_halve(x.l3, 0);
    }
    let bit = x.l0 & 1;
    let r = Scalar {
        l0: (x.l0 >> 1u64) | (x.l1 << 63u64),
        l1: (x.l1 >> 1u64) | (x.l2 << 63u64),
        l2: (x.l2 >> 1u64) | (x.l3 << 63u64),
        l3: x.l3 >> 1u64,
    };
    (r, bit)
}

/// Multiplies two field values by doubling and adding; the result is canonical.
pub fn field_mul(a: Scalar, b: Scalar) -> (r: Scalar)
    ensures
        r.value() == mul_spec(a.value(), b.value()),
        r.value() < field_order(),
{
    let ca = canonical(a);
    let ghost o = field_order() as int;
    let ghost c = ca.value() as int;
    let mut acc = Scalar::zero();
    let mut base = ca;
    let mut rem = b;
    let ghost mut p: int = 0;
    let ghost mut w: int = 1;
    proof {
        lemma_fundamental_div_mod_converse(c, o, 0, c);
        assert(c * 1 == c);
        lemma_fundamental_div_mod_converse(0, o, 0, 0);
        assert(c * 0 == 0);
    }
    while rem.l0 != 0 || rem.l1 != 0 || rem.l2 != 0 || rem.l3 != 0
        invariant
            o == field_order(),
            c == ca.value(),
            w >= 1,
            p >= 0,
            b.value() == p + w * rem.value(),
            acc.value() == (c * p) % o,
            base.value() == (c * w) % o,
        decreases rem.value(),
    {
        let (half, bit) = shift_right(rem);
        let ghost v = half.value() as int;
        assert(w * (2 * v + bit) == 2 * w * v + bit * w) by (nonlinear_arith);
        if bit == 1 {
            acc = field_add(acc, base);
            proof {
                lemma_add_mod_noop(c * p, c * w, o);
                assert(c * p + c * w == c * (p + w)) by (nonlinear_arith);
                p = p + w;
            }
        }
        base = field_add(base, base);
        proof {
            lemma_add_mod_noop(c * w, c * w, o);
            assert(c * w + c * w == c * (2 * w)) by (nonlinear_arith);
            w = 2 * w;
        }
        rem = half;
    }
    proof {
        assert(rem.value() == 0);
        assert(w * rem.value() == 0) by (nonlinear_arith)
            requires
                rem.value() == 0,
        ;
        assert(p == b.value());
        lemma_mul_mod_noop_left(a.value() as int, b.value() as int, o);
    }
    acc
}

/// Sums the values of `s` in the field.
pub fn field_sum(s: &Vec<Scalar>) -> (r: Scalar)
    ensures
        r.value() == sum_spec(s@),
        r.value() < field_order(),
{
    let mut acc = Scalar::zero();
    let mut i: usize = 0;
    while i < s.len()
        invariant
            i <= s@.len(),
            acc.value() == sum_spec(s@.take(i as int)),
            acc.value() < field_order(),
        decreases s@.len() - i,
    {
        assert(s@.take(i as int + 1).drop_last() == s@.take(i as int));
        acc = field_add(acc, s[i]);
        i = i + 1;
    }
    assert(s@.take(s@.len() as int) == s@);
    acc
}

/// Multiplies the values of `s` in the field.
pub fn field_product(s: &Vec<Scalar>) -> (r: Scalar)
    ensures
        r.value() == product_spec(s@),
        r.value() < field_order(),
{
    let mut acc = Scalar::one();
    let mut i: usize = 0;
    while i < s.len()
        invariant
            i <= s@.len(),
            acc.value() == product_spec(s@.take(i as int)),
            acc.value() < field_order(),
        decreases s@.len() - i,
    {
        assert(s@.take(i as int + 1).drop_last() == s@.take(i as int));
        acc = field_mul(acc, s[i]);
        i = i + 1;
    }
    assert(s@.take(s@.len() as int) == s@);
    acc
}

/// Whether two values stand for the same field element.
pub fn field_eq(a: Scalar, b: Scalar) -> (r: bool)
    ensures
        r == (reduce(a) == reduce(b)),
{
    let ca = canonical(a);
    let cb = canonical(b);
    ca.l0 == cb.l0 && ca.l1 == cb.l1 && ca.l2 == cb.l2 && ca.l3 == cb.l3
}

} // verus!
