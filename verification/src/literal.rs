//! Exact literals: integers of any size, and fractions.

use crate::data::{copy_u32s, same_u32s};
use crate::order::Order;
use crate::runtime::scalar::{floor_div, floor_mod};
use crate::text::{cat3, dec, dec_int, digit};
use vstd::prelude::*;

verus! {

/// An integer literal of any size: a sign and a magnitude in 32-bit limbs, the
/// least significant limb first.
#[derive(Debug, PartialEq, Eq)]
pub struct IntLiteral {
    pub negative: bool,
    pub limbs: Vec<u32>,
}

/// Mathematical model of [`IntLiteral`].
#[verifier::ext_equal]
pub struct IntLiteralModel {
    pub negative: bool,
    pub limbs: Seq<u32>,
}

/// An exact finite fraction. A zero may carry a sign.
#[derive(Debug, PartialEq, Eq)]
pub struct FloatLiteral {
    pub numerator: IntLiteral,
    pub denominator: IntLiteral,
    pub negative_zero: bool,
}

/// Mathematical model of [`FloatLiteral`].
#[verifier::ext_equal]
pub struct FloatLiteralModel {
    pub numerator: IntLiteralModel,
    pub denominator: IntLiteralModel,
    pub negative_zero: bool,
}

/// The model of a [`IntLiteral`].
pub open spec fn int_literal_view(x: IntLiteral) -> IntLiteralModel
    decreases x,
{
    IntLiteralModel {
        negative: x.negative,
        limbs: x.limbs@,
    }
}

impl View for IntLiteral {
    type V = IntLiteralModel;

    open spec fn view(&self) -> IntLiteralModel {
        int_literal_view(*self)
    }
}

impl IntLiteral {
    /// A structural copy.
    pub fn copy(&self) -> (r: IntLiteral)
        ensures
            r@ == self@,
        decreases self,
    {
        IntLiteral {
            negative: self.negative,
            limbs: copy_u32s(&self.limbs),
        }
    }

    /// Structural equality.
    pub fn same(&self, other: &IntLiteral) -> (r: bool)
        ensures
            r == (self@ == other@),
        decreases self,
    {
        self.negative == other.negative
            && same_u32s(&self.limbs, &other.limbs)
    }
}

impl Clone for IntLiteral {
    fn clone(&self) -> (r: IntLiteral)
        ensures
            r@ == self@,
    {
        self.copy()
    }
}

/// The model of a [`FloatLiteral`].
pub open spec fn float_literal_view(x: FloatLiteral) -> FloatLiteralModel
    decreases x,
{
    FloatLiteralModel {
        numerator: int_literal_view(x.numerator),
        denominator: int_literal_view(x.denominator),
        negative_zero: x.negative_zero,
    }
}

impl View for FloatLiteral {
    type V = FloatLiteralModel;

    open spec fn view(&self) -> FloatLiteralModel {
        float_literal_view(*self)
    }
}

impl FloatLiteral {
    /// A structural copy.
    pub fn copy(&self) -> (r: FloatLiteral)
        ensures
            r@ == self@,
        decreases self,
    {
        FloatLiteral {
            numerator: self.numerator.copy(),
            denominator: self.denominator.copy(),
            negative_zero: self.negative_zero,
        }
    }

    /// Structural equality.
    pub fn same(&self, other: &FloatLiteral) -> (r: bool)
        ensures
            r == (self@ == other@),
        decreases self,
    {
        self.numerator.same(&other.numerator)
            && self.denominator.same(&other.denominator)
            && self.negative_zero == other.negative_zero
    }
}

impl Clone for FloatLiteral {
    fn clone(&self) -> (r: FloatLiteral)
        ensures
            r@ == self@,
    {
        self.copy()
    }
}

/// The number that limbs spell, the least significant limb first.
pub open spec fn limbs_value(limbs: Seq<u32>) -> nat
    decreases limbs.len(),
{
    if limbs.len() == 0 {
        0
    } else {
        limbs[0] as nat + 0x1_0000_0000 * limbs_value(limbs.skip(1))
    }
}

/// The mathematical value of a literal.
pub open spec fn literal_value(literal: IntLiteralModel) -> int {
    if literal.negative {
        -(limbs_value(literal.limbs) as int)
    } else {
        limbs_value(literal.limbs) as int
    }
}

proof fn lemma_limbs_zero(limbs: Seq<u32>)
    ensures
        limbs_value(limbs) == 0 <==> forall|i: int| 0 <= i < limbs.len() ==> limbs[i] == 0,
    decreases limbs.len(),
{
    if limbs.len() > 0 {
        lemma_limbs_zero(limbs.skip(1));
        assert forall|i: int| 1 <= i < limbs.len() implies limbs[i] == limbs.skip(1)[i - 1] by {}
        if limbs_value(limbs) == 0 {
            assert forall|i: int| 0 <= i < limbs.len() implies limbs[i] == 0 by {
                if i > 0 {
                    assert(limbs.skip(1)[i - 1] == 0);
                }
            }
        }
        if forall|i: int| 0 <= i < limbs.len() ==> limbs[i] == 0 {
            assert forall|i: int| 0 <= i < limbs.skip(1).len() implies limbs.skip(1)[i] == 0 by {
                assert(limbs[i + 1] == 0);
            }
        }
    }
}

impl IntLiteral {
    /// The literal as a 64-bit integer, where it fits.
    pub fn to_i64(&self) -> (r: Option<i64>)
        ensures
            match r {
                Some(v) => v == literal_value(self@),
                None => literal_value(self@) < i64::MIN || literal_value(self@) > i64::MAX,
            },
    {
        let n: usize = self.limbs.len();
        let low: u64 = if n > 0 { self.limbs[0] as u64 } else { 0 };
        let high: u64 = if n > 1 { self.limbs[1] as u64 } else { 0 };
        let ghost limbs = self.limbs@;
        let ghost rest = if n >= 2 { limbs.skip(2) } else { Seq::<u32>::empty() };
        proof {
            reveal_with_fuel(limbs_value, 3);
            if n >= 2 {
                assert(limbs.skip(1).skip(1) =~= limbs.skip(2));
            }
            assert(limbs_value(limbs) == low + 0x1_0000_0000 * (high + 0x1_0000_0000 * limbs_value(rest)));
        }
        let mut i: usize = 2;
        while i < n
            invariant
                n == self.limbs@.len(),
                2 <= i,
                limbs == self.limbs@,
                n >= 2 ==> rest == limbs.skip(2),
                limbs_value(limbs) == low + 0x1_0000_0000 * (high + 0x1_0000_0000 * limbs_value(rest)),
                forall|j: int| 2 <= j < i && j < n ==> limbs[j] == 0,
            decreases n - i,
        {
            if self.limbs[i] != 0 {
                proof {
                    lemma_limbs_zero(rest);
                    assert(rest[i - 2] == limbs[i as int]);
                    assert(limbs_value(rest) >= 1);
                    assert(limbs_value(limbs) >= 0x1_0000_0000_0000_0000);
                }
                return None;
            }
            i = i + 1;
        }
        proof {
            lemma_limbs_zero(rest);
            assert forall|j: int| 0 <= j < rest.len() implies rest[j] == 0 by {
                assert(rest[j] == limbs[j + 2]);
            }
        }
        assert(limbs_value(limbs) == low + 0x1_0000_0000 * high);
        let magnitude: u64 = low + 0x1_0000_0000 * high;
        if self.negative {
            if magnitude > 0x8000_0000_0000_0000 {
                None
            } else if magnitude == 0x8000_0000_0000_0000 {
                Some(i64::MIN)
            } else {
                Some(-(magnitude as i64))
            }
        } else if magnitude > 0x7fff_ffff_ffff_ffff {
            None
        } else {
            Some(magnitude as i64)
        }
    }
}

/// The weight of the limb at a position.
pub open spec fn weight(i: nat) -> nat
    decreases i,
{
    if i == 0 { 1 } else { 0x1_0000_0000 * weight((i - 1) as nat) }
}

/// The limb at a position, or zero past the end.
pub open spec fn limb_at(limbs: Seq<u32>, i: int) -> int {
    if 0 <= i < limbs.len() { limbs[i] as int } else { 0 }
}

/// The number that the limbs from a position on spell.
pub open spec fn value_from(limbs: Seq<u32>, i: int) -> int {
    if 0 <= i <= limbs.len() { limbs_value(limbs.skip(i)) as int } else { 0 }
}

proof fn lemma_value_from(limbs: Seq<u32>, i: int)
    requires
        0 <= i,
    ensures
        value_from(limbs, i) == limb_at(limbs, i) + 0x1_0000_0000 * value_from(limbs, i + 1),
        i >= limbs.len() ==> value_from(limbs, i) == 0,
        value_from(limbs, 0) == limbs_value(limbs),
        value_from(limbs, i) >= 0,
{
    assert(limbs.skip(0) =~= limbs);
    if i < limbs.len() {
        assert(limbs.skip(i)[0] == limbs[i]);
        assert(limbs.skip(i).skip(1) =~= limbs.skip(i + 1));
    }
}

proof fn lemma_weight(i: nat)
    ensures
        weight(i) >= 1,
        weight(i + 1) == 0x1_0000_0000 * weight(i),
    decreases i,
{
    if i > 0 {
        lemma_weight((i - 1) as nat);
    }
}

proof fn lemma_limbs_push(limbs: Seq<u32>, x: u32)
    ensures
        limbs_value(limbs.push(x)) == limbs_value(limbs) + x * weight(limbs.len()),
    decreases limbs.len(),
{
    let more = limbs.push(x);
    if limbs.len() == 0 {
        assert(more.skip(1) =~= Seq::<u32>::empty());
        reveal_with_fuel(limbs_value, 2);
        assert(weight(0) == 1);
    } else {
        assert(more.skip(1) =~= limbs.skip(1).push(x));
        assert(more[0] == limbs[0]);
        lemma_limbs_push(limbs.skip(1), x);
        lemma_weight((limbs.len() - 1) as nat);
        let w = weight((limbs.len() - 1) as nat);
        assert(0x1_0000_0000 * (limbs_value(limbs.skip(1)) + x * w) == 0x1_0000_0000 * limbs_value(limbs.skip(1)) + x * (
        0x1_0000_0000 * w)) by (nonlinear_arith);
    }
}

proof fn lemma_limbs_bound(limbs: Seq<u32>)
    ensures
        limbs_value(limbs) < weight(limbs.len()),
    decreases limbs.len(),
{
    if limbs.len() > 0 {
        lemma_limbs_bound(limbs.skip(1));
        lemma_weight((limbs.len() - 1) as nat);
        let w = weight((limbs.len() - 1) as nat) as int;
        let v = limbs_value(limbs.skip(1)) as int;
        assert(limbs[0] + 0x1_0000_0000 * v < 0x1_0000_0000 * w) by (nonlinear_arith)
            requires
                v + 1 <= w,
                0 <= limbs[0] < 0x1_0000_0000,
        ;
    }
}

proof fn lemma_split(limbs: Seq<u32>, i: int)
    requires
        0 <= i <= limbs.len(),
    ensures
        limbs_value(limbs) == limbs_value(limbs.take(i)) + weight(i as nat) * value_from(limbs, i),
        limbs_value(limbs.take(i)) < weight(i as nat),
    decreases i,
{
    lemma_limbs_bound(limbs.take(i));
    if i == 0 {
        assert(limbs.take(0) =~= Seq::<u32>::empty());
        assert(limbs.skip(0) =~= limbs);
        assert(weight(0) == 1);
        assert(1 * value_from(limbs, 0) == value_from(limbs, 0)) by (nonlinear_arith);
    } else {
        lemma_split(limbs, i - 1);
        assert(limbs.take(i) =~= limbs.take(i - 1).push(limbs[i - 1]));
        lemma_limbs_push(limbs.take(i - 1), limbs[i - 1]);
        lemma_value_from(limbs, i - 1);
        lemma_weight((i - 1) as nat);
        let w = weight((i - 1) as nat) as int;
        let x = limbs[i - 1] as int;
        let v = value_from(limbs, i);
        assert(w * (x + 0x1_0000_0000 * v) == x * w + (0x1_0000_0000 * w) * v) by (nonlinear_arith);
    }
}

fn limb(limbs: &Vec<u32>, i: usize) -> (r: u64)
    ensures
        r == limb_at(limbs@, i as int),
        r <= 0xffff_ffff,
{
    if i < limbs.len() { limbs[i] as u64 } else { 0 }
}

fn longer(a: &Vec<u32>, b: &Vec<u32>) -> (r: usize)
    ensures
        r >= a@.len() && r >= b@.len(),
        r == a@.len() || r == b@.len(),
{
    if a.len() < b.len() { b.len() } else { a.len() }
}

/// The same number without zero limbs at the top.
fn trimmed(limbs: Vec<u32>) -> (r: Vec<u32>)
    ensures
        limbs_value(r@) == limbs_value(limbs@),
        r@.len() > 0 ==> r@.last() != 0,
{
    let mut out: Vec<u32> = limbs;
    while out.len() > 0 && out[out.len() - 1] == 0
        invariant
            limbs_value(out@) == limbs_value(limbs@),
        decreases out@.len(),
    {
        proof {
            assert(out@ =~= out@.drop_last().push(0));
            lemma_limbs_push(out@.drop_last(), 0);
            assert(0 * weight((out@.len() - 1) as nat) == 0) by (nonlinear_arith);
        }
        out.pop();
    }
    out
}

fn mag_add(a: &Vec<u32>, b: &Vec<u32>) -> (r: Vec<u32>)
    ensures
        limbs_value(r@) == limbs_value(a@) + limbs_value(b@),
{
    let n: usize = longer(a, b);
    let mut out: Vec<u32> = Vec::new();
    let mut carry: u64 = 0;
    let ghost total = limbs_value(a@) + limbs_value(b@);
    proof {
        lemma_value_from(a@, 0);
        lemma_value_from(b@, 0);
    }
    for i in 0..n
        invariant
            out@.len() == i,
            carry <= 1,
            total == limbs_value(out@) + weight(i as nat) * (carry + value_from(a@, i as int) + value_from(b@, i as int)),
    {
        let s: u64 = limb(a, i) + limb(b, i) + carry;
        let low: u32 = (s % 0x1_0000_0000) as u32;
        proof {
            lemma_value_from(a@, i as int);
            lemma_value_from(b@, i as int);
            lemma_limbs_push(out@, low);
            lemma_weight(i as nat);
            let w = weight(i as nat) as int;
            let x = value_from(a@, i + 1) + value_from(b@, i + 1);
            let high = (s / 0x1_0000_0000) as int;
            assert(s == low + 0x1_0000_0000 * high);
            assert(
                w * (low + 0x1_0000_0000 * high + 0x1_0000_0000 * x) == low * w + (0x1_0000_0000 * w) * (high + x)
            )
                by (nonlinear_arith);
            assert(carry + value_from(a@, i as int) + value_from(b@, i as int) == low + 0x1_0000_0000 * high
                + 0x1_0000_0000 * x);
        }
        out.push(low);
        carry = s / 0x1_0000_0000;
    }
    proof {
        lemma_value_from(a@, n as int);
        lemma_value_from(b@, n as int);
        lemma_limbs_push(out@, carry as u32);
        assert(weight(n as nat) * carry == carry * weight(n as nat)) by (nonlinear_arith);
    }
    out.push(carry as u32);
    trimmed(out)
}

fn mag_sub(a: &Vec<u32>, b: &Vec<u32>) -> (r: Vec<u32>)
    requires
        limbs_value(a@) >= limbs_value(b@),
    ensures
        limbs_value(r@) == limbs_value(a@) - limbs_value(b@),
{
    let n: usize = longer(a, b);
    let mut out: Vec<u32> = Vec::new();
    let mut borrow: u64 = 0;
    let ghost total = limbs_value(a@) - limbs_value(b@);
    proof {
        lemma_value_from(a@, 0);
        lemma_value_from(b@, 0);
    }
    for i in 0..n
        invariant
            out@.len() == i,
            borrow <= 1,
            total == limbs_value(out@) + weight(i as nat) * (value_from(a@, i as int) - value_from(b@, i as int) - borrow),
    {
        let s: u64 = 0x1_0000_0000 + limb(a, i) - limb(b, i) - borrow;
        let low: u32 = (s % 0x1_0000_0000) as u32;
        let next: u64 = if s < 0x1_0000_0000 { 1 } else { 0 };
        proof {
            lemma_value_from(a@, i as int);
            lemma_value_from(b@, i as int);
            lemma_limbs_push(out@, low);
            lemma_weight(i as nat);
            let w = weight(i as nat) as int;
            let x = value_from(a@, i + 1) - value_from(b@, i + 1);
            assert(s == low + 0x1_0000_0000 * (1 - next));
            assert(
                w * (low - 0x1_0000_0000 * next + 0x1_0000_0000 * x) == low * w + (0x1_0000_0000 * w) * (x - next)
            )
                by (nonlinear_arith);
            assert(value_from(a@, i as int) - value_from(b@, i as int) - borrow == low - 0x1_0000_0000 * next
                + 0x1_0000_0000 * x);
        }
        out.push(low);
        borrow = next;
    }
    proof {
        lemma_value_from(a@, n as int);
        lemma_value_from(b@, n as int);
        lemma_limbs_bound(out@);
        let w = weight(n as nat) as int;
        if borrow == 1 {
            assert(w * (0 - 1) == -w) by (nonlinear_arith);
        } else {
            assert(w * 0 == 0) by (nonlinear_arith);
        }
    }
    trimmed(out)
}

fn mag_mul_small(a: &Vec<u32>, d: u32) -> (r: Vec<u32>)
    ensures
        limbs_value(r@) == limbs_value(a@) * d,
{
    let mut out: Vec<u32> = Vec::new();
    let mut carry: u64 = 0;
    let ghost total = limbs_value(a@) * d;
    proof {
        lemma_value_from(a@, 0);
        assert(weight(0) * (0 + d * value_from(a@, 0)) == limbs_value(a@) * d) by (nonlinear_arith)
            requires
                value_from(a@, 0) == limbs_value(a@),
                weight(0) == 1,
        ;
    }
    for i in 0..a.len()
        invariant
            out@.len() == i,
            carry <= 0xffff_ffff,
            total == limbs_value(out@) + weight(i as nat) * (carry + d * value_from(a@, i as int)),
    {
        let x: u64 = limb(a, i);
        assert(x * d <= 0xffff_ffff * 0xffff_ffff) by (nonlinear_arith)
            requires
                x <= 0xffff_ffff,
                d <= 0xffff_ffff,
        ;
        let s: u64 = x * (d as u64) + carry;
        let low: u32 = (s % 0x1_0000_0000) as u32;
        let high: u64 = s / 0x1_0000_0000;
        proof {
            lemma_value_from(a@, i as int);
            lemma_limbs_push(out@, low);
            lemma_weight(i as nat);
            let w = weight(i as nat) as int;
            let v = value_from(a@, i + 1);
            assert(d * (x + 0x1_0000_0000 * v) == x * d + 0x1_0000_0000 * (d * v)) by (nonlinear_arith);
            assert(w * (low + 0x1_0000_0000 * high + 0x1_0000_0000 * (d * v)) == low * w + (0x1_0000_0000 * w) * (high + d
                * v)) by (nonlinear_arith);
        }
        out.push(low);
        carry = high;
    }
    proof {
        lemma_value_from(a@, a@.len() as int);
        lemma_limbs_push(out@, carry as u32);
        assert(d * 0 == 0) by (nonlinear_arith);
        assert(weight(a@.len()) * carry == carry * weight(a@.len())) by (nonlinear_arith);
    }
    out.push(carry as u32);
    trimmed(out)
}

fn mag_shift(a: &Vec<u32>, n: usize) -> (r: Vec<u32>)
    ensures
        limbs_value(r@) == limbs_value(a@) * weight(n as nat),
{
    let mut out: Vec<u32> = Vec::new();
    for i in 0..n
        invariant
            out@.len() == i,
            limbs_value(out@) == 0,
    {
        proof {
            lemma_limbs_push(out@, 0);
            assert(0 * weight(i as nat) == 0) by (nonlinear_arith);
        }
        out.push(0);
    }
    proof {
        assert(a@.take(0) =~= Seq::<u32>::empty());
        assert(0 * weight(n as nat) == 0) by (nonlinear_arith);
    }
    for i in 0..a.len()
        invariant
            out@.len() == n + i,
            limbs_value(out@) == limbs_value(a@.take(i as int)) * weight(n as nat),
    {
        proof {
            let x = a@[i as int];
            lemma_limbs_push(out@, x);
            assert(a@.take(i + 1) =~= a@.take(i as int).push(x));
            lemma_limbs_push(a@.take(i as int), x);
            lemma_weight_add(n as nat, i as nat);
            let (w, v, k) = (
                weight(n as nat) as int,
                weight(i as nat) as int,
                limbs_value(a@.take(i as int)) as int,
            );
            assert((k + x * v) * w == k * w + x * (w * v)) by (nonlinear_arith);
        }
        out.push(a[i]);
    }
    assert(a@.take(a@.len() as int) =~= a@);
    out
}

proof fn lemma_weight_add(a: nat, b: nat)
    ensures
        weight(a + b) == weight(a) * weight(b),
    decreases b,
{
    if b > 0 {
        lemma_weight_add(a, (b - 1) as nat);
        let (x, y) = (weight(a) as int, weight((b - 1) as nat) as int);
        assert(0x1_0000_0000 * (x * y) == x * (0x1_0000_0000 * y)) by (nonlinear_arith);
    } else {
        assert(weight(a) * 1 == weight(a)) by (nonlinear_arith);
    }
}

fn mag_mul(a: &Vec<u32>, b: &Vec<u32>) -> (r: Vec<u32>)
    ensures
        limbs_value(r@) == limbs_value(a@) * limbs_value(b@),
{
    let mut out: Vec<u32> = Vec::new();
    proof {
        assert(a@.take(0) =~= Seq::<u32>::empty());
        assert(0 * limbs_value(b@) == 0) by (nonlinear_arith);
    }
    for i in 0..a.len()
        invariant
            limbs_value(out@) == limbs_value(a@.take(i as int)) * limbs_value(b@),
    {
        let row: Vec<u32> = mag_mul_small(b, a[i]);
        let shifted: Vec<u32> = mag_shift(&row, i);
        proof {
            let x = a@[i as int] as int;
            assert(a@.take(i + 1) =~= a@.take(i as int).push(a@[i as int]));
            lemma_limbs_push(a@.take(i as int), a@[i as int]);
            let (w, v, k) = (
                weight(i as nat) as int,
                limbs_value(b@) as int,
                limbs_value(a@.take(i as int)) as int,
            );
            assert((k + x * w) * v == k * v + (v * x) * w) by (nonlinear_arith);
        }
        out = mag_add(&out, &shifted);
    }
    assert(a@.take(a@.len() as int) =~= a@);
    out
}

fn mag_order(a: &Vec<u32>, b: &Vec<u32>) -> (r: Order)
    ensures
        r == int_order(limbs_value(a@) as int, limbs_value(b@) as int),
{
    let mut i: usize = longer(a, b);
    let ghost n = i;
    proof {
        lemma_value_from(a@, i as int);
        lemma_value_from(b@, i as int);
        lemma_value_from(a@, 0);
        lemma_value_from(b@, 0);
    }
    while i > 0
        invariant
            value_from(a@, i as int) == value_from(b@, i as int),
            value_from(a@, 0) == limbs_value(a@),
            value_from(b@, 0) == limbs_value(b@),
        decreases i,
    {
        let x: u64 = limb(a, i - 1);
        let y: u64 = limb(b, i - 1);
        proof {
            lemma_value_from(a@, i - 1);
            lemma_value_from(b@, i - 1);
        }
        if x != y {
            proof {
                lemma_above(a@, b@, i - 1);
                lemma_above(b@, a@, i - 1);
            }
            return if x < y { Order::Less } else { Order::Greater };
        }
        i = i - 1;
    }
    Order::Same
}

proof fn lemma_above(a: Seq<u32>, b: Seq<u32>, i: int)
    requires
        0 <= i,
    ensures
        value_from(a, i) > value_from(b, i) ==> limbs_value(a) > limbs_value(b),
{
    if value_from(a, i) > value_from(b, i) {
        lemma_value_from(a, i);
        lemma_value_from(b, i);
        assert(i <= a.len());
        lemma_split(a, i);
        let w = weight(i as nat) as int;
        lemma_weight(i as nat);
        let (x, y) = (value_from(a, i), value_from(b, i));
        assert(w * x >= w * y + w) by (nonlinear_arith)
            requires
                x >= y + 1,
                w >= 1,
        ;
        if i <= b.len() {
            lemma_split(b, i);
        } else {
            lemma_limbs_bound(b);
            lemma_weight_mono(b.len(), i as nat);
            assert(w * y == 0) by (nonlinear_arith)
                requires
                    y == 0,
            ;
        }
    }
}

proof fn lemma_weight_mono(a: nat, b: nat)
    requires
        a <= b,
    ensures
        weight(a) <= weight(b),
    decreases b,
{
    if a < b {
        lemma_weight_mono(a, (b - 1) as nat);
        lemma_weight((b - 1) as nat);
    }
}

/// A number halved, with the bit that falls off.
fn mag_half(a: &Vec<u32>) -> (r: (Vec<u32>, u32))
    ensures
        limbs_value(a@) == 2 * limbs_value(r.0@) + r.1,
        r.1 <= 1,
{
    let n: usize = a.len();
    let mut out: Vec<u32> = Vec::new();
    for i in 0..n
        invariant
            out@.len() == i,
    {
        out.push(0);
    }
    let mut carry: u64 = 0;
    let mut i: usize = n;
    proof {
        lemma_value_from(a@, n as int);
        lemma_value_from(out@, n as int);
    }
    while i > 0
        invariant
            i <= n,
            n == a@.len(),
            out@.len() == n,
            carry <= 1,
            value_from(a@, i as int) == 2 * value_from(out@, i as int) + carry,
        decreases i,
    {
        let x: u64 = carry * 0x1_0000_0000 + a[i - 1] as u64;
        let half: u64 = x / 2;
        let ghost before = out@;
        out.set(i - 1, half as u32);
        proof {
            lemma_value_from(a@, i - 1);
            lemma_value_from(out@, i - 1);
            assert(out@.skip(i as int) =~= before.skip(i as int));
        }
        carry = x % 2;
        i = i - 1;
    }
    proof {
        lemma_value_from(a@, 0);
        lemma_value_from(out@, 0);
    }
    (trimmed(out), carry as u32)
}

fn mag_is_zero(a: &Vec<u32>) -> (r: bool)
    ensures
        r == (limbs_value(a@) == 0),
{
    proof {
        lemma_limbs_zero(a@);
    }
    for i in 0..a.len()
        invariant
            limbs_value(a@) == 0 <==> forall|j: int| 0 <= j < a@.len() ==> a@[j] == 0,
            forall|j: int| 0 <= j < i ==> a@[j] == 0,
    {
        if a[i] != 0 {
            return false;
        }
    }
    true
}

fn one_limb(x: u32) -> (r: Vec<u32>)
    ensures
        limbs_value(r@) == x,
{
    let mut out: Vec<u32> = Vec::new();
    proof {
        lemma_limbs_push(out@, x);
        assert(x * 1 == x) by (nonlinear_arith);
    }
    out.push(x);
    out
}

/// Quotient and remainder of magnitudes, by halving the dividend.
fn mag_div(a: &Vec<u32>, d: &Vec<u32>) -> (r: (Vec<u32>, Vec<u32>))
    requires
        limbs_value(d@) > 0,
    ensures
        limbs_value(a@) == limbs_value(r.0@) * limbs_value(d@) + limbs_value(r.1@),
        limbs_value(r.1@) < limbs_value(d@),
    decreases limbs_value(a@),
{
    if mag_is_zero(a) {
        assert(0 * limbs_value(d@) == 0) by (nonlinear_arith);
        return (Vec::new(), Vec::new());
    }
    let (half, bit): (Vec<u32>, u32) = mag_half(a);
    let (q, r): (Vec<u32>, Vec<u32>) = mag_div(&half, d);
    let q2: Vec<u32> = mag_mul_small(&q, 2);
    let t: Vec<u32> = mag_add(&mag_mul_small(&r, 2), &one_limb(bit));
    let ghost (qv, rv, dv) = (limbs_value(q@) as int, limbs_value(r@) as int, limbs_value(d@) as int);
    assert(2 * (qv * dv + rv) + bit == (qv * 2) * dv + (rv * 2 + bit)) by (nonlinear_arith);
    match mag_order(&t, d) {
        Order::Less => (q2, t),
        _ => {
            assert((qv * 2 + 1) * dv == (qv * 2) * dv + dv) by (nonlinear_arith);
            (mag_add(&q2, &one_limb(1)), mag_sub(&t, d))
        },
    }
}

/// Comparing integers.
pub open spec fn int_order(a: int, b: int) -> Order {
    if a < b {
        Order::Less
    } else if a == b {
        Order::Same
    } else {
        Order::Greater
    }
}

/// The quotient rounded towards negative infinity.
pub open spec fn floor_quotient(a: int, b: int) -> int {
    if b > 0 { a / b } else { (-a) / (-b) }
}

/// The remainder that goes with it: it has the sign of the divisor.
pub open spec fn floor_remainder(a: int, b: int) -> int {
    a - b * floor_quotient(a, b)
}

/// A power of an integer.
pub open spec fn int_pow(base: int, exponent: nat) -> int
    decreases exponent,
{
    if exponent == 0 { 1 } else { base * int_pow(base, (exponent - 1) as nat) }
}

/// The bits of two numbers combined, in two's complement without end.
pub open spec fn combined_bits(a: int, b: int, f: spec_fn(bool, bool) -> bool) -> int
    decreases (if a < 0 { -a - 1 } else { a }) + (if b < 0 { -b - 1 } else { b }),
{
    if (a == 0 || a == -1) && (b == 0 || b == -1) {
        if f(a == -1, b == -1) { -1 } else { 0 }
    } else {
        2 * combined_bits(a / 2, b / 2, f) + if f(a % 2 == 1, b % 2 == 1) { 1int } else { 0int }
    }
}

/// An operation on bits.
#[derive(Debug, Clone, Copy, PartialEq, Eq, Structural)]
pub enum BitOp {
    And,
    Or,
    Xor,
}

/// What an operation does to two bits.
pub open spec fn bit_result(op: BitOp, x: bool, y: bool) -> bool {
    match op {
        BitOp::And => x && y,
        BitOp::Or => x || y,
        BitOp::Xor => x != y,
    }
}

/// An operation on the bits of two numbers.
pub open spec fn bitwise(op: BitOp, a: int, b: int) -> int {
    combined_bits(a, b, |x: bool, y: bool| bit_result(op, x, y))
}

proof fn lemma_floor_unique(a: int, b: int, q: int, r: int)
    requires
        b > 0,
        a == q * b + r,
        0 <= r < b,
    ensures
        q == a / b,
{
    vstd::arithmetic::div_mod::lemma_fundamental_div_mod_converse(a, b, q, r);
}

impl IntLiteral {
    /// The literal of a magnitude and a sign.
    fn signed(negative: bool, limbs: Vec<u32>) -> (r: IntLiteral)
        ensures
            literal_value(r@) == (if negative { -(limbs_value(limbs@) as int) } else { limbs_value(limbs@) as int }),
    {
        IntLiteral { negative, limbs }
    }

    /// The literal of an unsigned integer.
    pub fn from_u64(v: u64) -> (r: IntLiteral)
        ensures
            literal_value(r@) == v,
    {
        let low: Vec<u32> = one_limb((v % 0x1_0000_0000) as u32);
        let high: Vec<u32> = mag_shift(&one_limb((v / 0x1_0000_0000) as u32), 1);
        proof {
            lemma_weight(0);
            assert(weight(1) == 0x1_0000_0000);
        }
        IntLiteral::signed(false, mag_add(&low, &high))
    }

    /// The literal of a signed integer.
    pub fn from_i64(v: i64) -> (r: IntLiteral)
        ensures
            literal_value(r@) == v,
    {
        if v >= 0 {
            IntLiteral::from_u64(v as u64)
        } else {
            let magnitude: u64 = (-(v + 1)) as u64 + 1;
            IntLiteral::from_u64(magnitude).neg()
        }
    }

    pub fn is_zero(&self) -> (r: bool)
        ensures
            r == (literal_value(self@) == 0),
    {
        mag_is_zero(&self.limbs)
    }

    pub fn is_negative(&self) -> (r: bool)
        ensures
            r == (literal_value(self@) < 0),
    {
        self.negative && !mag_is_zero(&self.limbs)
    }

    /// The negated literal.
    pub fn neg(&self) -> (r: IntLiteral)
        ensures
            literal_value(r@) == -literal_value(self@),
    {
        IntLiteral { negative: !self.negative, limbs: copy_u32s(&self.limbs) }
    }

    /// The sum.
    pub fn add(&self, rhs: &IntLiteral) -> (r: IntLiteral)
        ensures
            literal_value(r@) == literal_value(self@) + literal_value(rhs@),
    {
        if self.negative == rhs.negative {
            IntLiteral::signed(self.negative, mag_add(&self.limbs, &rhs.limbs))
        } else {
            match mag_order(&self.limbs, &rhs.limbs) {
                Order::Less => IntLiteral::signed(rhs.negative, mag_sub(&rhs.limbs, &self.limbs)),
                _ => IntLiteral::signed(self.negative, mag_sub(&self.limbs, &rhs.limbs)),
            }
        }
    }

    /// The difference.
    pub fn sub(&self, rhs: &IntLiteral) -> (r: IntLiteral)
        ensures
            literal_value(r@) == literal_value(self@) - literal_value(rhs@),
    {
        self.add(&rhs.neg())
    }

    /// The product.
    pub fn mul(&self, rhs: &IntLiteral) -> (r: IntLiteral)
        ensures
            literal_value(r@) == literal_value(self@) * literal_value(rhs@),
    {
        let ghost (a, b) = (limbs_value(self.limbs@) as int, limbs_value(rhs.limbs@) as int);
        assert((-a) * b == -(a * b)) by (nonlinear_arith);
        assert(a * (-b) == -(a * b)) by (nonlinear_arith);
        assert((-a) * (-b) == a * b) by (nonlinear_arith);
        IntLiteral::signed(self.negative != rhs.negative, mag_mul(&self.limbs, &rhs.limbs))
    }

    /// The order of two literals.
    pub fn compare(&self, rhs: &IntLiteral) -> (r: Order)
        ensures
            r == int_order(literal_value(self@), literal_value(rhs@)),
    {
        let d: IntLiteral = self.sub(rhs);
        if d.is_negative() {
            Order::Less
        } else if d.is_zero() {
            Order::Same
        } else {
            Order::Greater
        }
    }

    /// Quotient and remainder rounded towards negative infinity, for a divisor that
    /// is not zero.
    fn floor_parts(&self, rhs: &IntLiteral) -> (r: (IntLiteral, IntLiteral))
        requires
            literal_value(rhs@) != 0,
        ensures
            literal_value(r.0@) == floor_quotient(literal_value(self@), literal_value(rhs@)),
            literal_value(r.1@) == floor_remainder(literal_value(self@), literal_value(rhs@)),
    {
        let (q, m): (Vec<u32>, Vec<u32>) = mag_div(&self.limbs, &rhs.limbs);
        let ghost (a, b) = (literal_value(self@), literal_value(rhs@));
        let ghost (av, bv) = (limbs_value(self.limbs@) as int, limbs_value(rhs.limbs@) as int);
        let ghost (qv, mv) = (limbs_value(q@) as int, limbs_value(m@) as int);
        let exact: bool = mag_is_zero(&m);
        let quotient: IntLiteral = if self.negative == rhs.negative || exact {
            IntLiteral::signed(self.negative != rhs.negative, q)
        } else {
            IntLiteral::signed(true, mag_add(&q, &one_limb(1)))
        };
        proof {
            let x = if b > 0 { a } else { -a };
            assert(x == av || x == -av);
            assert(av == qv * bv + mv);
            if x == av {
                if self.negative == rhs.negative {
                    lemma_floor_unique(x, bv, qv, mv);
                } else {
                    assert(av == 0);
                    assert(qv == 0) by (nonlinear_arith)
                        requires
                            0 == qv * bv + mv,
                            qv >= 0,
                            bv >= 1,
                            mv >= 0,
                    ;
                    assert(mv == 0) by (nonlinear_arith)
                        requires
                            0 == qv * bv + mv,
                            qv >= 0,
                            bv >= 1,
                            mv >= 0,
                    ;
                    lemma_floor_unique(x, bv, 0, 0);
                }
            } else if self.negative == rhs.negative {
                assert(false);
            } else if mv == 0 {
                assert(-av == (-qv) * bv + 0) by (nonlinear_arith)
                    requires
                        av == qv * bv,
                ;
                lemma_floor_unique(x, bv, -qv, 0);
            } else {
                assert(-av == (-(qv + 1)) * bv + (bv - mv)) by (nonlinear_arith)
                    requires
                        av == qv * bv + mv,
                ;
                lemma_floor_unique(x, bv, -(qv + 1), bv - mv);
            }
        }
        let product: IntLiteral = rhs.mul(&quotient);
        let remainder: IntLiteral = self.sub(&product);
        (quotient, remainder)
    }

    /// The quotient rounded towards negative infinity; none by zero.
    pub fn floor_div(&self, rhs: &IntLiteral) -> (r: Option<IntLiteral>)
        ensures
            match r {
                Some(q) => literal_value(rhs@) != 0 && literal_value(q@) == floor_quotient(
                    literal_value(self@),
                    literal_value(rhs@),
                ),
                None => literal_value(rhs@) == 0,
            },
    {
        if rhs.is_zero() { None } else { Some(self.floor_parts(rhs).0) }
    }

    /// The remainder with the sign of the divisor; none by zero.
    pub fn floor_mod(&self, rhs: &IntLiteral) -> (r: Option<IntLiteral>)
        ensures
            match r {
                Some(m) => literal_value(rhs@) != 0 && literal_value(m@) == floor_remainder(
                    literal_value(self@),
                    literal_value(rhs@),
                ),
                None => literal_value(rhs@) == 0,
            },
    {
        if rhs.is_zero() { None } else { Some(self.floor_parts(rhs).1) }
    }

    /// The literal to a power.
    pub fn raised(&self, exponent: u32) -> (r: IntLiteral)
        ensures
            literal_value(r@) == int_pow(literal_value(self@), exponent as nat),
    {
        let mut out: IntLiteral = IntLiteral::from_u64(1);
        for i in 0..exponent
            invariant
                literal_value(out@) == int_pow(literal_value(self@), i as nat),
        {
            out = self.mul(&out);
        }
        out
    }

    /// The literal as an exponent or a shift: a number from zero up that fits 32
    /// bits.
    pub fn to_u32(&self) -> (r: Option<u32>)
        ensures
            match r {
                Some(v) => v == literal_value(self@),
                None => literal_value(self@) < 0 || literal_value(self@) > u32::MAX,
            },
    {
        match self.to_i64() {
            Some(v) => if 0 <= v && v <= 0xffff_ffff { Some(v as u32) } else { None },
            None => None,
        }
    }

    /// The power, where the exponent is a number from zero up that fits 32 bits.
    pub fn pow(&self, rhs: &IntLiteral) -> (r: Option<IntLiteral>)
        ensures
            match r {
                Some(p) => 0 <= literal_value(rhs@) <= u32::MAX && literal_value(p@) == int_pow(
                    literal_value(self@),
                    literal_value(rhs@) as nat,
                ),
                None => literal_value(rhs@) < 0 || literal_value(rhs@) > u32::MAX,
            },
    {
        match rhs.to_u32() {
            Some(e) => Some(self.raised(e)),
            None => None,
        }
    }

    /// The literal times a power of two, where the shift is a number from zero up
    /// that fits 32 bits.
    pub fn shl(&self, rhs: &IntLiteral) -> (r: Option<IntLiteral>)
        ensures
            match r {
                Some(p) => 0 <= literal_value(rhs@) <= u32::MAX && literal_value(p@) == literal_value(self@) * int_pow(
                    2,
                    literal_value(rhs@) as nat,
                ),
                None => literal_value(rhs@) < 0 || literal_value(rhs@) > u32::MAX,
            },
    {
        match rhs.to_u32() {
            Some(e) => Some(self.mul(&IntLiteral::from_u64(2).raised(e))),
            None => None,
        }
    }

    /// The literal over a power of two, rounded towards negative infinity, where
    /// the shift is a number from zero up that fits 32 bits.
    pub fn shr(&self, rhs: &IntLiteral) -> (r: Option<IntLiteral>)
        ensures
            match r {
                Some(p) => 0 <= literal_value(rhs@) <= u32::MAX && literal_value(p@) == floor_quotient(
                    literal_value(self@),
                    int_pow(2, literal_value(rhs@) as nat),
                ),
                None => literal_value(rhs@) < 0 || literal_value(rhs@) > u32::MAX,
            },
    {
        match rhs.to_u32() {
            Some(e) => {
                let divisor: IntLiteral = IntLiteral::from_u64(2).raised(e);
                proof {
                    lemma_pow_positive(2, e as nat);
                }
                Some(self.floor_parts(&divisor).0)
            },
            None => None,
        }
    }

    fn combine(op: BitOp, a: &IntLiteral, b: &IntLiteral) -> (r: IntLiteral)
        ensures
            literal_value(r@) == bitwise(op, literal_value(a@), literal_value(b@)),
        decreases
            (if literal_value(a@) < 0 { -literal_value(a@) - 1 } else { literal_value(a@) }) + (if literal_value(b@) < 0 {
                -literal_value(b@) - 1
            } else {
                literal_value(b@)
            }),
    {
        let ghost f = |x: bool, y: bool| bit_result(op, x, y);
        let minus_one: IntLiteral = IntLiteral::from_i64(-1);
        let a_set: bool = match a.compare(&minus_one) {
            Order::Same => true,
            _ => false,
        };
        let b_set: bool = match b.compare(&minus_one) {
            Order::Same => true,
            _ => false,
        };
        if (a.is_zero() || a_set) && (b.is_zero() || b_set) {
            return if combine_bits(op, a_set, b_set) { minus_one } else { IntLiteral::from_i64(0) };
        }
        let two: IntLiteral = IntLiteral::from_u64(2);
        let (ha, la): (IntLiteral, IntLiteral) = a.floor_parts(&two);
        let (hb, lb): (IntLiteral, IntLiteral) = b.floor_parts(&two);
        let ghost (av, bv) = (literal_value(a@), literal_value(b@));
        assert(literal_value(la@) == av % 2);
        assert(literal_value(lb@) == bv % 2);
        let rest: IntLiteral = IntLiteral::combine(op, &ha, &hb);
        let bit: bool = combine_bits(op, !la.is_zero(), !lb.is_zero());
        let doubled: IntLiteral = two.mul(&rest);
        doubled.add(&IntLiteral::from_u64(if bit { 1 } else { 0 }))
    }

    /// The bits that both have.
    pub fn bitand(&self, rhs: &IntLiteral) -> (r: IntLiteral)
        ensures
            literal_value(r@) == bitwise(BitOp::And, literal_value(self@), literal_value(rhs@)),
    {
        IntLiteral::combine(BitOp::And, self, rhs)
    }

    /// The bits that either has.
    pub fn bitor(&self, rhs: &IntLiteral) -> (r: IntLiteral)
        ensures
            literal_value(r@) == bitwise(BitOp::Or, literal_value(self@), literal_value(rhs@)),
    {
        IntLiteral::combine(BitOp::Or, self, rhs)
    }

    /// The bits that exactly one has.
    pub fn bitxor(&self, rhs: &IntLiteral) -> (r: IntLiteral)
        ensures
            literal_value(r@) == bitwise(BitOp::Xor, literal_value(self@), literal_value(rhs@)),
    {
        IntLiteral::combine(BitOp::Xor, self, rhs)
    }

    /// The literal as an unsigned 64-bit integer, where it fits.
    pub fn to_u64(&self) -> (r: Option<u64>)
        ensures
            match r {
                Some(v) => v == literal_value(self@),
                None => literal_value(self@) < 0 || literal_value(self@) > u64::MAX,
            },
    {
        match self.to_i64() {
            Some(v) => if v >= 0 { Some(v as u64) } else { None },
            None => {
                let offset: IntLiteral = IntLiteral::from_u64(0x8000_0000_0000_0000);
                match self.sub(&offset).to_i64() {
                    Some(v) => if v >= 0 { Some(v as u64 + 0x8000_0000_0000_0000) } else { None },
                    None => None,
                }
            },
        }
    }

    /// The low bits of the literal in two's complement.
    pub fn wrapping_unsigned(&self, bits: u32) -> (r: u64)
        requires
            bits <= 64,
        ensures
            r == literal_value(self@) % int_pow(2, bits as nat),
    {
        let modulus: IntLiteral = IntLiteral::from_u64(2).raised(bits);
        proof {
            lemma_pow_positive(2, bits as nat);
            lemma_pow_bound(bits as nat);
            let (a, b) = (literal_value(self@), int_pow(2, bits as nat));
            vstd::arithmetic::div_mod::lemma_fundamental_div_mod(a, b);
            assert(0 <= a % b < b);
        }
        let m: IntLiteral = self.floor_parts(&modulus).1;
        match m.to_u64() {
            Some(v) => v,
            None => 0,
        }
    }
}

/// The low bits of a number, the top one of them a sign.
pub open spec fn signed_low(v: int, bits: nat) -> int {
    let low = v % int_pow(2, bits);
    if 2 * low < int_pow(2, bits) { low } else { low - int_pow(2, bits) }
}

fn combine_bits(op: BitOp, x: bool, y: bool) -> (r: bool)
    ensures
        r == bit_result(op, x, y),
{
    match op {
        BitOp::And => x && y,
        BitOp::Or => x || y,
        BitOp::Xor => x != y,
    }
}

/// Powers of positive numbers are positive.
pub proof fn lemma_pow_positive(base: int, exponent: nat)
    requires
        base > 0,
    ensures
        int_pow(base, exponent) > 0,
    decreases exponent,
{
    if exponent > 0 {
        lemma_pow_positive(base, (exponent - 1) as nat);
        let p = int_pow(base, (exponent - 1) as nat);
        assert(base * p > 0) by (nonlinear_arith)
            requires
                base > 0,
                p > 0,
        ;
    }
}

/// A power of a sum of exponents is a product.
pub proof fn lemma_pow_add(base: int, a: nat, b: nat)
    ensures
        int_pow(base, a + b) == int_pow(base, a) * int_pow(base, b),
    decreases a,
{
    let y = int_pow(base, b);
    if a == 0 {
        assert(1 * y == y) by (nonlinear_arith);
    } else {
        lemma_pow_add(base, (a - 1) as nat, b);
        let x = int_pow(base, (a - 1) as nat);
        assert(base * (x * y) == (base * x) * y) by (nonlinear_arith);
    }
}

/// The powers of two that are machine sizes.
pub proof fn lemma_pow_values()
    ensures
        int_pow(2, 7) == 0x80,
        int_pow(2, 8) == 0x100,
        int_pow(2, 15) == 0x8000,
        int_pow(2, 16) == 0x1_0000,
        int_pow(2, 31) == 0x8000_0000,
        int_pow(2, 32) == 0x1_0000_0000,
        int_pow(2, 63) == 0x8000_0000_0000_0000,
        int_pow(2, 64) == 0x1_0000_0000_0000_0000,
{
    assert(int_pow(2, 7) == 0x80 && int_pow(2, 8) == 0x100) by {
        reveal_with_fuel(int_pow, 9);
    }
    lemma_pow_add(2, 8, 7);
    assert(int_pow(2, 15) == 0x100 * 0x80);
    lemma_pow_add(2, 8, 8);
    assert(int_pow(2, 16) == 0x100 * 0x100);
    lemma_pow_add(2, 16, 15);
    assert(int_pow(2, 31) == 0x1_0000 * 0x8000);
    lemma_pow_add(2, 16, 16);
    assert(int_pow(2, 32) == 0x1_0000 * 0x1_0000);
    lemma_pow_add(2, 32, 31);
    assert(int_pow(2, 63) == 0x1_0000_0000 * 0x8000_0000);
    lemma_pow_add(2, 32, 32);
    assert(int_pow(2, 64) == 0x1_0000_0000 * 0x1_0000_0000);
}

proof fn lemma_pow_bound(exponent: nat)
    requires
        exponent <= 64,
    ensures
        int_pow(2, exponent) <= 0x1_0000_0000_0000_0000,
{
    lemma_pow_mono(exponent, 64);
    lemma_pow_values();
}

proof fn lemma_pow_mono(a: nat, b: nat)
    requires
        a <= b,
    ensures
        int_pow(2, a) <= int_pow(2, b),
    decreases b,
{
    if a < b {
        lemma_pow_mono(a, (b - 1) as nat);
        lemma_pow_positive(2, (b - 1) as nat);
    }
}

impl IntLiteral {
    /// The low bits of the literal, the top one of them a sign.
    pub fn wrapping_signed(&self, bits: u32) -> (r: i64)
        requires
            1 <= bits <= 64,
        ensures
            r == signed_low(literal_value(self@), bits as nat),
    {
        let low: u64 = self.wrapping_unsigned(bits);
        proof {
            lemma_pow_positive(2, (bits - 1) as nat);
            lemma_pow_bound(bits as nat);
            assert(int_pow(2, bits as nat) == 2 * int_pow(2, (bits - 1) as nat));
            vstd::arithmetic::div_mod::lemma_mod_bound(literal_value(self@), int_pow(2, bits as nat));
        }
        let half: IntLiteral = IntLiteral::from_u64(2).raised(bits - 1);
        let half: u64 = match half.to_u64() {
            Some(v) => v,
            None => 0,
        };
        if low < half {
            low as i64
        } else {
            let over: u64 = low - half;
            // The low bits less the modulus: from minus a half up to zero.
            if half == 0x8000_0000_0000_0000 {
                over as i64 + i64::MIN
            } else {
                over as i64 - half as i64
            }
        }
    }
}

fn push_decimal(s: &mut String, n: &IntLiteral)
    requires
        literal_value(n@) >= 0,
    ensures
        final(s)@ == old(s)@ + dec(literal_value(n@) as nat),
    decreases literal_value(n@),
{
    let ten: IntLiteral = IntLiteral::from_u64(10);
    let (q, r): (IntLiteral, IntLiteral) = n.floor_parts(&ten);
    let ghost v = literal_value(n@);
    assert(literal_value(r@) == v % 10);
    let last: u64 = match r.to_u64() {
        Some(d) => d,
        None => 0,
    };
    if !q.is_zero() {
        push_decimal(s, &q);
    }
    s.push(digit(last as u8, false));
    assert(s@ =~= old(s)@ + dec(v as nat));
}

impl IntLiteral {
    /// The decimal spelling.
    pub fn text(&self) -> (r: String)
        ensures
            r@ == dec_int(literal_value(self@)),
    {
        let mut s: String = String::new();
        if self.is_negative() {
            s.push('-');
            push_decimal(&mut s, &self.neg());
        } else {
            push_decimal(&mut s, self);
        }
        assert(s@ =~= dec_int(literal_value(self@)));
        s
    }
}

/// The numerator of an exact literal.
pub open spec fn numerator(l: FloatLiteralModel) -> int {
    literal_value(l.numerator)
}

/// The denominator of an exact literal: one, where none above zero is given.
pub open spec fn denominator(l: FloatLiteralModel) -> int {
    if literal_value(l.denominator) > 0 { literal_value(l.denominator) } else { 1 }
}

/// The order of two exact literals, by cross-multiplication.
pub open spec fn fraction_order(a: FloatLiteralModel, b: FloatLiteralModel) -> Order {
    int_order(numerator(a) * denominator(b), numerator(b) * denominator(a))
}

/// Whether an exact literal is the fraction.
pub open spec fn is_fraction(l: FloatLiteralModel, n: int, d: int) -> bool {
    numerator(l) == n && denominator(l) == d
}

/// The quotient of two exact literals as a numerator and a denominator that may be
/// negative.
pub open spec fn quotient_parts(a: FloatLiteralModel, b: FloatLiteralModel) -> (int, int) {
    (numerator(a) * denominator(b), denominator(a) * numerator(b))
}

proof fn lemma_product_sign(a: int, b: int)
    ensures
        a > 0 && b > 0 ==> a * b > 0,
        a > 0 && b < 0 ==> a * b < 0,
        a > 0 && b == 0 ==> a * b == 0,
{
    if a > 0 && b > 0 {
        assert(a * b > 0) by (nonlinear_arith)
            requires
                a > 0,
                b > 0,
        ;
    }
    if a > 0 && b < 0 {
        assert(a * b < 0) by (nonlinear_arith)
            requires
                a > 0,
                b < 0,
        ;
    }
}

impl FloatLiteral {
    /// The literal of a numerator and a denominator.
    pub fn fraction(numerator: IntLiteral, denominator: IntLiteral) -> (r: FloatLiteral)
        requires
            literal_value(denominator@) > 0,
        ensures
            is_fraction(r@, literal_value(numerator@), literal_value(denominator@)),
            !r.negative_zero,
    {
        FloatLiteral { numerator, denominator, negative_zero: false }
    }

    /// The denominator.
    pub fn below(&self) -> (r: IntLiteral)
        ensures
            literal_value(r@) == denominator(self@),
    {
        if self.denominator.is_zero() || self.denominator.is_negative() {
            IntLiteral::from_u64(1)
        } else {
            self.denominator.copy()
        }
    }

    /// The exact literal of an integer.
    pub fn from_int(value: &IntLiteral) -> (r: FloatLiteral)
        ensures
            is_fraction(r@, literal_value(value@), 1),
            !r.negative_zero,
    {
        FloatLiteral::fraction(value.copy(), IntLiteral::from_u64(1))
    }

    pub fn is_zero(&self) -> (r: bool)
        ensures
            r == (numerator(self@) == 0),
    {
        self.numerator.is_zero()
    }

    /// The negated literal; a zero keeps its sign.
    pub fn neg(&self) -> (r: FloatLiteral)
        ensures
            is_fraction(r@, -numerator(self@), denominator(self@)),
            r.negative_zero == (numerator(self@) == 0 && !self.negative_zero),
    {
        FloatLiteral {
            numerator: self.numerator.neg(),
            denominator: self.denominator.copy(),
            negative_zero: self.numerator.is_zero() && !self.negative_zero,
        }
    }

    /// The magnitude; it is never the negative zero.
    pub fn abs(&self) -> (r: FloatLiteral)
        ensures
            is_fraction(
                r@,
                if numerator(self@) < 0 { -numerator(self@) } else { numerator(self@) },
                denominator(self@),
            ),
            !r.negative_zero,
    {
        FloatLiteral {
            numerator: if self.numerator.is_negative() { self.numerator.neg() } else { self.numerator.copy() },
            denominator: self.denominator.copy(),
            negative_zero: false,
        }
    }

    /// The sum.
    pub fn add(&self, rhs: &FloatLiteral) -> (r: FloatLiteral)
        ensures
            is_fraction(
                r@,
                numerator(self@) * denominator(rhs@) + numerator(rhs@) * denominator(self@),
                denominator(self@) * denominator(rhs@),
            ),
    {
        let (a, b): (IntLiteral, IntLiteral) = (self.below(), rhs.below());
        proof {
            lemma_product_sign(denominator(self@), denominator(rhs@));
        }
        let left: IntLiteral = self.numerator.mul(&b);
        let right: IntLiteral = rhs.numerator.mul(&a);
        FloatLiteral::fraction(left.add(&right), a.mul(&b))
    }

    /// The difference.
    pub fn sub(&self, rhs: &FloatLiteral) -> (r: FloatLiteral)
        ensures
            is_fraction(
                r@,
                numerator(self@) * denominator(rhs@) - numerator(rhs@) * denominator(self@),
                denominator(self@) * denominator(rhs@),
            ),
    {
        let (a, b): (IntLiteral, IntLiteral) = (self.below(), rhs.below());
        proof {
            lemma_product_sign(denominator(self@), denominator(rhs@));
        }
        let left: IntLiteral = self.numerator.mul(&b);
        let right: IntLiteral = rhs.numerator.mul(&a);
        FloatLiteral::fraction(left.sub(&right), a.mul(&b))
    }

    /// The product.
    pub fn mul(&self, rhs: &FloatLiteral) -> (r: FloatLiteral)
        ensures
            is_fraction(r@, numerator(self@) * numerator(rhs@), denominator(self@) * denominator(rhs@)),
    {
        let (a, b): (IntLiteral, IntLiteral) = (self.below(), rhs.below());
        proof {
            lemma_product_sign(denominator(self@), denominator(rhs@));
        }
        FloatLiteral::fraction(self.numerator.mul(&rhs.numerator), a.mul(&b))
    }

    /// The quotient; none by zero.
    pub fn div(&self, rhs: &FloatLiteral) -> (r: Option<FloatLiteral>)
        ensures
            ({
                let (n, d) = quotient_parts(self@, rhs@);
                match r {
                    Some(q) => numerator(rhs@) != 0 && if d > 0 { is_fraction(q@, n, d) } else { is_fraction(q@, -n, -d) },
                    None => numerator(rhs@) == 0,
                }
            }),
    {
        if rhs.numerator.is_zero() {
            return None;
        }
        proof {
            lemma_product_sign(denominator(self@), numerator(rhs@));
        }
        let n: IntLiteral = self.numerator.mul(&rhs.below());
        let d: IntLiteral = self.below().mul(&rhs.numerator);
        if d.is_negative() {
            Some(FloatLiteral::fraction(n.neg(), d.neg()))
        } else {
            Some(FloatLiteral::fraction(n, d))
        }
    }

    /// The quotient rounded towards negative infinity; none by zero.
    pub fn floor_div(&self, rhs: &FloatLiteral) -> (r: Option<FloatLiteral>)
        ensures
            match r {
                Some(q) => numerator(rhs@) != 0 && is_fraction(
                    q@,
                    floor_quotient(quotient_parts(self@, rhs@).0, quotient_parts(self@, rhs@).1),
                    1,
                ),
                None => numerator(rhs@) == 0,
            },
    {
        if rhs.numerator.is_zero() {
            return None;
        }
        proof {
            lemma_product_sign(denominator(self@), numerator(rhs@));
        }
        let n: IntLiteral = self.numerator.mul(&rhs.below());
        let d: IntLiteral = self.below().mul(&rhs.numerator);
        Some(FloatLiteral::from_int(&n.floor_parts(&d).0))
    }

    /// What the floored quotient leaves; none by zero.
    pub fn floor_mod(&self, rhs: &FloatLiteral) -> (r: Option<FloatLiteral>)
        ensures
            ({
                let (n, d) = quotient_parts(self@, rhs@);
                match r {
                    Some(m) => numerator(rhs@) != 0 && is_fraction(
                        m@,
                        numerator(self@) * (denominator(rhs@) * 1) - (numerator(rhs@) * floor_quotient(n, d)) * denominator(
                            self@,
                        ),
                        denominator(self@) * (denominator(rhs@) * 1),
                    ),
                    None => numerator(rhs@) == 0,
                }
            }),
    {
        match self.floor_div(rhs) {
            Some(q) => {
                let product: FloatLiteral = rhs.mul(&q);
                Some(self.sub(&product))
            },
            None => None,
        }
    }

    /// The order of two exact literals.
    pub fn numeric_order(&self, rhs: &FloatLiteral) -> (r: Order)
        ensures
            r == fraction_order(self@, rhs@),
    {
        self.numerator.mul(&rhs.below()).compare(&rhs.numerator.mul(&self.below()))
    }

    /// The integer that the literal is, if it is one.
    pub fn to_int_if_whole(&self) -> (r: Option<IntLiteral>)
        ensures
            match r {
                Some(n) => numerator(self@) % denominator(self@) == 0 && literal_value(n@) == numerator(self@)
                    / denominator(self@),
                None => numerator(self@) % denominator(self@) != 0,
            },
    {
        let (q, m): (IntLiteral, IntLiteral) = self.numerator.floor_parts(&self.below());
        proof {
            vstd::arithmetic::div_mod::lemma_fundamental_div_mod(numerator(self@), denominator(self@));
        }
        if m.is_zero() { Some(q) } else { None }
    }

    /// The literal rounded towards zero.
    pub fn trunc_to_int(&self) -> (r: IntLiteral)
        ensures
            literal_value(r@) == (if numerator(self@) < 0 {
                -((-numerator(self@)) / denominator(self@))
            } else {
                numerator(self@) / denominator(self@)
            }),
    {
        if self.numerator.is_negative() {
            self.numerator.neg().floor_parts(&self.below()).0.neg()
        } else {
            self.numerator.floor_parts(&self.below()).0
        }
    }

    /// The literal to an integer power. A power below zero is that of the
    /// reciprocal; zero has none, and the exponent has to fit 32 bits.
    pub fn pow_int(&self, exponent: &IntLiteral) -> (r: Option<FloatLiteral>)
        ensures
            ({
                let e = literal_value(exponent@);
                let (n, d) = (numerator(self@), denominator(self@));
                match r {
                    Some(p) => if e >= 0 {
                        e <= u32::MAX && is_fraction(p@, int_pow(n, e as nat), int_pow(d, e as nat))
                    } else if n > 0 {
                        -e <= u32::MAX && is_fraction(p@, int_pow(d, (-e) as nat), int_pow(n, (-e) as nat))
                    } else {
                        n < 0 && -e <= u32::MAX && is_fraction(
                            p@,
                            int_pow(-d, (-e) as nat),
                            int_pow(-n, (-e) as nat),
                        )
                    },
                    None => e > u32::MAX || -e > u32::MAX || (e < 0 && n == 0),
                }
            }),
    {
        let below: IntLiteral = self.below();
        if exponent.is_negative() {
            if self.numerator.is_zero() {
                return None;
            }
            match exponent.neg().to_u32() {
                Some(e) => {
                    let (n, d): (IntLiteral, IntLiteral) = if self.numerator.is_negative() {
                        (below.neg(), self.numerator.neg())
                    } else {
                        (below, self.numerator.copy())
                    };
                    proof {
                        lemma_pow_positive(literal_value(d@), e as nat);
                    }
                    Some(FloatLiteral::fraction(n.raised(e), d.raised(e)))
                },
                None => None,
            }
        } else {
            match exponent.to_u32() {
                Some(e) => {
                    proof {
                        lemma_pow_positive(denominator(self@), e as nat);
                    }
                    Some(FloatLiteral::fraction(self.numerator.raised(e), below.raised(e)))
                },
                None => None,
            }
        }
    }

    /// The spelling: a whole number, or a fraction.
    pub fn text(&self) -> (r: String)
        ensures
            r@ == fraction_text(self@),
    {
        match self.to_int_if_whole() {
            Some(n) => n.text(),
            None => cat3(&self.numerator.text(), "/", &self.below().text()),
        }
    }
}

/// The spelling of an exact literal: a whole number, or a fraction.
pub open spec fn fraction_text(l: FloatLiteralModel) -> Seq<char> {
    if numerator(l) % denominator(l) == 0 {
        dec_int(numerator(l) / denominator(l))
    } else {
        dec_int(numerator(l)) + "/"@ + dec_int(denominator(l))
    }
}

/// The order of exact literals is that of numbers: exchanging them reverses it.
pub proof fn law_fraction_order_reverses(a: FloatLiteralModel, b: FloatLiteralModel)
    ensures
        fraction_order(a, b) is Less <==> fraction_order(b, a) is Greater,
        fraction_order(a, b) is Same <==> fraction_order(b, a) is Same,
{
}

/// Equality of exact literals is transitive, whatever fractions spell them.
pub proof fn law_fraction_equality_transitive(
    a: FloatLiteralModel,
    b: FloatLiteralModel,
    c: FloatLiteralModel,
)
    requires
        fraction_order(a, b) is Same,
        fraction_order(b, c) is Same,
    ensures
        fraction_order(a, c) is Same,
{
    let (an, ad) = (numerator(a), denominator(a));
    let (bn, bd) = (numerator(b), denominator(b));
    let (cn, cd) = (numerator(c), denominator(c));
    assert((an * cd) * bd == (cn * ad) * bd) by (nonlinear_arith)
        requires
            an * bd == bn * ad,
            bn * cd == cn * bd,
    ;
    assert(an * cd == cn * ad) by (nonlinear_arith)
        requires
            (an * cd) * bd == (cn * ad) * bd,
            bd > 0,
    ;
}

/// Dividing and multiplying back gives the same number.
pub proof fn law_floor_parts(a: int, b: int)
    requires
        b != 0,
    ensures
        a == b * floor_quotient(a, b) + floor_remainder(a, b),
        b > 0 ==> 0 <= floor_remainder(a, b) < b,
        b < 0 ==> b < floor_remainder(a, b) <= 0,
{
    if b > 0 {
        vstd::arithmetic::div_mod::lemma_fundamental_div_mod(a, b);
        vstd::arithmetic::div_mod::lemma_mod_bound(a, b);
    } else {
        let (x, y) = (-a, -b);
        vstd::arithmetic::div_mod::lemma_fundamental_div_mod(x, y);
        vstd::arithmetic::div_mod::lemma_mod_bound(x, y);
        let q = floor_quotient(a, b);
        assert(b * q == -(y * q)) by (nonlinear_arith)
            requires
                y == -b,
        ;
    }
}

/// The limbs of a number, without zero limbs at the top.
pub open spec fn limbs_of(n: nat) -> Seq<u32>
    decreases n,
{
    if n == 0 {
        Seq::empty()
    } else {
        seq![(n % 0x1_0000_0000) as u32] + limbs_of(n / 0x1_0000_0000)
    }
}

/// The canonical literal of an integer.
pub open spec fn literal_of(n: int) -> IntLiteralModel {
    IntLiteralModel { negative: n < 0, limbs: limbs_of(if n < 0 { (-n) as nat } else { n as nat }) }
}

proof fn lemma_limbs_of(limbs: Seq<u32>)
    requires
        limbs.len() > 0 ==> limbs.last() != 0,
    ensures
        limbs_of(limbs_value(limbs)) == limbs,
        limbs.len() > 0 ==> limbs_value(limbs) > 0,
    decreases limbs.len(),
{
    if limbs.len() > 0 {
        let rest = limbs.skip(1);
        if rest.len() > 0 {
            assert(rest.last() == limbs.last());
        }
        lemma_limbs_of(rest);
        let n = limbs_value(limbs);
        assert(n == limbs[0] as nat + 0x1_0000_0000 * limbs_value(rest));
        assert(n % 0x1_0000_0000 == limbs[0]);
        assert(n / 0x1_0000_0000 == limbs_value(rest));
        assert(limbs =~= seq![limbs[0]] + rest);
    }
}

/// The canonical literal of an integer has its value.
pub proof fn law_literal_of(n: int)
    ensures
        literal_value(literal_of(n)) == n,
{
    lemma_limbs_of_value(if n < 0 { (-n) as nat } else { n as nat });
}

proof fn lemma_limbs_of_value(n: nat)
    ensures
        limbs_value(limbs_of(n)) == n,
    decreases n,
{
    if n > 0 {
        lemma_limbs_of_value(n / 0x1_0000_0000);
        assert(limbs_of(n).skip(1) =~= limbs_of(n / 0x1_0000_0000));
    }
}

/// The canonical exact literal of a fraction.
pub open spec fn fraction_of(n: int, d: int) -> FloatLiteralModel {
    FloatLiteralModel { numerator: literal_of(n), denominator: literal_of(d), negative_zero: false }
}

impl IntLiteral {
    /// The canonical literal of the same value.
    pub fn canonical(&self) -> (r: IntLiteral)
        ensures
            r@ == literal_of(literal_value(self@)),
    {
        let limbs: Vec<u32> = trimmed(copy_u32s(&self.limbs));
        let negative: bool = self.is_negative();
        proof {
            lemma_limbs_of(limbs@);
        }
        let r: IntLiteral = IntLiteral { negative, limbs };
        assert(r@ =~= literal_of(literal_value(self@)));
        r
    }
}

impl FloatLiteral {
    /// The canonical literal of the same numerator and denominator.
    pub fn canonical(&self) -> (r: FloatLiteral)
        ensures
            r@ == fraction_of(numerator(self@), denominator(self@)),
    {
        let r: FloatLiteral = FloatLiteral {
            numerator: self.numerator.canonical(),
            denominator: self.below().canonical(),
            negative_zero: false,
        };
        assert(r@ =~= fraction_of(numerator(self@), denominator(self@)));
        r
    }
}

} // verus!
