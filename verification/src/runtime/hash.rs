//! Hashes of builtin values: deterministic, and equal for equal numbers.

use crate::literal::{
    FloatLiteral, IntLiteral, denominator, law_floor_parts, lemma_pow_positive, lemma_pow_values,
    literal_value, numerator,
};
use crate::order::Order;
use crate::runtime::{
    Stop, StopModel, Value, ValueModel, fail_type, float_scale, kind_name, type_error, value_kind,
};
use crate::runtime::scalar::bits_view;
use crate::runtime::values::{as_finite_numeric, exact_parts, operator_equal};
use crate::text::cat2;
use vstd::prelude::*;

verus! {

/// The hash of nothing.
pub open spec fn hash_seed() -> u64 {
    0xcbf2_9ce4_8422_2325
}

/// Mixing one byte into a hash.
pub open spec fn mix_byte(h: u64, b: u8) -> u64 {
    vstd::wrapping::u64_specs::wrapping_mul(h ^ (b as u64), 0x100_0000_01b3)
}

/// Mixing bytes into a hash, in order.
pub open spec fn mixed(h: u64, bytes: Seq<u8>) -> u64
    decreases bytes.len(),
{
    if bytes.len() == 0 { h } else { mix_byte(mixed(h, bytes.drop_last()), bytes.last()) }
}

fn mix(h: u64, bytes: &Vec<u8>) -> (r: u64)
    ensures
        r == mixed(h, bytes@),
{
    let mut out: u64 = h;
    for i in 0..bytes.len()
        invariant
            out == mixed(h, bytes@.take(i as int)),
    {
        assert(bytes@.take(i + 1).drop_last() =~= bytes@.take(i as int));
        out = (out ^ (bytes[i] as u64)).wrapping_mul(0x100_0000_01b3);
    }
    assert(bytes@.take(bytes@.len() as int) =~= bytes@);
    out
}

/// The shortest two's complement of an integer, least significant byte first.
pub open spec fn signed_bytes(n: int) -> Seq<u8>
    decreases (if n < 0 { -n } else { n }),
{
    let low = n % 256;
    let rest = n / 256;
    if (rest == 0 && low < 128) || (rest == -1 && low >= 128) || n == 0 || n == -1 {
        seq![low as u8]
    } else {
        seq![low as u8] + signed_bytes(rest)
    }
}

fn bytes_of_int(n: &IntLiteral) -> (r: Vec<u8>)
    ensures
        r@ == signed_bytes(literal_value(n@)),
    decreases (if literal_value(n@) < 0 { -literal_value(n@) } else { literal_value(n@) }),
{
    let base: IntLiteral = IntLiteral::from_u64(256);
    let ghost v = literal_value(n@);
    let minus_one: IntLiteral = IntLiteral::from_i64(-1);
    let low: u8 = n.wrapping_unsigned(8) as u8;
    proof {
        lemma_pow_values();
    }
    let rest: IntLiteral = match n.floor_div(&base) {
        Some(q) => q,
        None => n.copy(),
    };
    let all_set: bool = match rest.compare(&minus_one) {
        Order::Same => true,
        _ => false,
    };
    let minus: bool = match n.compare(&minus_one) {
        Order::Same => true,
        _ => false,
    };
    let mut out: Vec<u8> = Vec::new();
    out.push(low);
    assert(out@ =~= seq![(v % 256) as u8]);
    if (rest.is_zero() && low < 128) || (all_set && low >= 128) || n.is_zero() || minus {
        return out;
    }
    let more: Vec<u8> = bytes_of_int(&rest);
    let ghost first = out@;
    for i in 0..more.len()
        invariant
            out@ == first + more@.take(i as int),
    {
        out.push(more[i]);
        assert(out@ =~= first + more@.take(i + 1));
    }
    assert(more@.take(more@.len() as int) =~= more@);
    out
}

/// The eight bytes of a number, least significant first.
pub open spec fn word_bytes(n: u64, k: nat) -> Seq<u8>
    decreases k,
{
    if k == 0 {
        Seq::empty()
    } else {
        seq![(n % 256) as u8] + word_bytes((n / 256) as u64, (k - 1) as nat)
    }
}

fn bytes_of_word(n: u64) -> (r: Vec<u8>)
    ensures
        r@ == word_bytes(n, 8),
{
    let mut out: Vec<u8> = Vec::new();
    let mut rest: u64 = n;
    let mut k: usize = 8;
    assert(out@ + word_bytes(n, 8) =~= word_bytes(n, 8));
    while k > 0
        invariant
            k <= 8,
            out@ + word_bytes(rest, k as nat) == word_bytes(n, 8),
        decreases k,
    {
        let ghost before = out@;
        out.push((rest % 256) as u8);
        assert(
            out@ + word_bytes((rest / 256) as u64, (k - 1) as nat) =~= before + word_bytes(rest, k as nat)
        );
        rest = rest / 256;
        k = k - 1;
    }
    assert(out@ =~= word_bytes(n, 8));
    out
}

/// The greatest common divisor.
pub open spec fn gcd(a: nat, b: nat) -> nat
    decreases b,
{
    if b == 0 {
        a
    } else {
        gcd(b, a % b)
    }
}

fn common_divisor(a: &IntLiteral, b: &IntLiteral) -> (r: IntLiteral)
    requires
        literal_value(a@) >= 0,
        literal_value(b@) >= 0,
    ensures
        literal_value(r@) == gcd(literal_value(a@) as nat, literal_value(b@) as nat),
    decreases literal_value(b@),
{
    match a.floor_mod(b) {
        None => a.copy(),
        Some(m) => {
            proof {
                law_floor_parts(literal_value(a@), literal_value(b@));
                vstd::arithmetic::div_mod::lemma_fundamental_div_mod(literal_value(a@), literal_value(b@));
            }
            common_divisor(b, &m)
        },
    }
}

/// The greatest common divisor of a numerator and a denominator.
pub open spec fn common(n: int, d: int) -> int {
    gcd(d as nat, if n < 0 { (-n) as nat } else { n as nat }) as int
}

/// The hash of a fraction in lowest terms: a word, and the length and the bytes of
/// the numerator and of the denominator.
pub open spec fn fraction_hash(n: int, d: int) -> u64 {
    let top = signed_bytes(n / common(n, d));
    let bottom = signed_bytes(d / common(n, d));
    let start = mixed(hash_seed(), seq![110u8, 117u8, 109u8, 101u8, 114u8, 105u8, 99u8]);
    let a = mixed(mixed(start, word_bytes(top.len() as u64, 8)), top);
    mixed(mixed(a, word_bytes(bottom.len() as u64, 8)), bottom)
}

proof fn lemma_gcd(a: nat, b: nat) -> (xy: (int, int))
    requires
        a > 0 || b > 0,
    ensures
        gcd(a, b) > 0,
        a % gcd(a, b) == 0,
        b % gcd(a, b) == 0,
        a * xy.0 + b * xy.1 == gcd(a, b),
    decreases b,
{
    if b == 0 {
        vstd::arithmetic::div_mod::lemma_mod_self_0(a as int);
        assert(a * 1 + 0 * 0 == a) by (nonlinear_arith);
        (1, 0)
    } else {
        let r = a % b;
        let q = a / b;
        vstd::arithmetic::div_mod::lemma_fundamental_div_mod(a as int, b as int);
        let (x, y) = lemma_gcd(b, r);
        let g = gcd(b, r);
        let (k, m) = (b as int / g as int, r as int / g as int);
        vstd::arithmetic::div_mod::lemma_fundamental_div_mod(b as int, g as int);
        vstd::arithmetic::div_mod::lemma_fundamental_div_mod(r as int, g as int);
        assert(a as int == (k * q + m) * g) by (nonlinear_arith)
            requires
                a as int == b as int * q + r,
                b as int == g as int * k,
                r as int == g as int * m,
        ;
        vstd::arithmetic::div_mod::lemma_fundamental_div_mod_converse(a as int, g as int, k * q + m, 0);
        assert(a * y + b * (x - q * y) == g) by (nonlinear_arith)
            requires
                a as int == b as int * q + r,
                b * x + r * y == g,
        ;
        (y, x - q * y)
    }
}

proof fn lemma_reduced_divides(p1: int, q1: int, p2: int, q2: int, x: int, y: int)
    requires
        p1 * q2 == p2 * q1,
        p1 * x + q1 * y == 1,
        q1 > 0,
        q2 > 0,
    ensures
        q1 <= q2,
{
    let k = p2 * x + q2 * y;
    assert(q2 == q1 * k) by (nonlinear_arith)
        requires
            p1 * q2 == p2 * q1,
            p1 * x + q1 * y == 1,
            k == p2 * x + q2 * y,
    ;
    assert(q1 <= q2) by (nonlinear_arith)
        requires
            q2 == q1 * k,
            q1 > 0,
            q2 > 0,
    ;
}

/// The terms of a reduced fraction, and the numbers that combine them to one.
proof fn lemma_reduced(n: int, d: int) -> (xy: (int, int))
    requires
        d > 0,
    ensures
        common(n, d) > 0,
        n == (n / common(n, d)) * common(n, d),
        d == (d / common(n, d)) * common(n, d),
        d / common(n, d) > 0,
        (n / common(n, d)) * xy.0 + (d / common(n, d)) * xy.1 == 1,
{
    let m = if n < 0 { (-n) as nat } else { n as nat };
    let (y, x) = lemma_gcd(d as nat, m);
    let g = common(n, d);
    vstd::arithmetic::div_mod::lemma_fundamental_div_mod(d, g);
    vstd::arithmetic::div_mod::lemma_fundamental_div_mod(m as int, g);
    let (q, k) = (d / g, m as int / g);
    assert(d == q * g && m == k * g) by (nonlinear_arith)
        requires
            d == g * q,
            m as int == g * k,
    ;
    let s: int = if n < 0 { -1 } else { 1 };
    assert(n == (s * k) * g + 0) by (nonlinear_arith)
        requires
            m as int == k * g,
            n == s * m,
    ;
    vstd::arithmetic::div_mod::lemma_fundamental_div_mod_converse(n, g, s * k, 0);
    assert(q > 0) by (nonlinear_arith)
        requires
            d == q * g,
            d > 0,
            g > 0,
    ;
    assert((q * y + k * x) * g == g) by (nonlinear_arith)
        requires
            d * y + m as int * x == g,
            d == q * g,
            m as int == k * g,
    ;
    assert(q * y + k * x == 1) by (nonlinear_arith)
        requires
            (q * y + k * x) * g == g,
            g > 0,
    ;
    assert((s * k) * (s * x) + q * y == 1) by (nonlinear_arith)
        requires
            q * y + k * x == 1,
            s == 1 || s == -1,
    ;
    (s * x, y)
}

/// Equal numbers have equal hashes, whatever fractions spell them.
pub proof fn law_equal_numbers_hash_equal(an: int, ad: int, bn: int, bd: int)
    requires
        ad > 0,
        bd > 0,
        an * bd == bn * ad,
    ensures
        fraction_hash(an, ad) == fraction_hash(bn, bd),
{
    let (x1, y1) = lemma_reduced(an, ad);
    let (x2, y2) = lemma_reduced(bn, bd);
    let (g, h) = (common(an, ad), common(bn, bd));
    let (p1, q1, p2, q2) = (an / g, ad / g, bn / h, bd / h);
    assert((p1 * q2) * (g * h) == (p2 * q1) * (g * h)) by (nonlinear_arith)
        requires
            an * bd == bn * ad,
            an == p1 * g,
            ad == q1 * g,
            bn == p2 * h,
            bd == q2 * h,
    ;
    assert(p1 * q2 == p2 * q1) by (nonlinear_arith)
        requires
            (p1 * q2) * (g * h) == (p2 * q1) * (g * h),
            g > 0,
            h > 0,
    ;
    lemma_reduced_divides(p1, q1, p2, q2, x1, y1);
    assert(p2 * q1 == p1 * q2);
    lemma_reduced_divides(p2, q2, p1, q1, x2, y2);
    assert(q1 == q2);
    assert(p1 == p2) by (nonlinear_arith)
        requires
            p1 * q2 == p2 * q1,
            q1 == q2,
            q1 > 0,
    ;
}

/// The hash of a value: numbers that are equal have equal hashes, and only scalars
/// and texts have one.
#[verifier::opaque]
pub open spec fn hash_outcome(v: ValueModel) -> Result<u64, StopModel> {
    match exact_parts(v) {
        Some(p) => Ok(fraction_hash(p.0, p.1)),
        None => match v {
            ValueModel::Bool(b) => Ok(mixed(hash_seed(), seq![if b { 1u8 } else { 0u8 }])),
            ValueModel::Float64(bits) => Ok(mixed(hash_seed(), word_bytes(bits, 8))),
            ValueModel::Str(s) => Ok(mixed(hash_seed(), vstd::utf8::encode_utf8(s))),
            _ => Err(type_error("cannot hash "@ + value_kind(v))),
        },
    }
}

fn hash_fraction(l: &FloatLiteral) -> (r: u64)
    ensures
        r == fraction_hash(numerator(l@), denominator(l@)),
{
    let d: IntLiteral = l.below();
    let n: &IntLiteral = &l.numerator;
    let m: IntLiteral = if n.is_negative() { n.neg() } else { n.copy() };
    let g: IntLiteral = common_divisor(&d, &m);
    proof {
        let xy = lemma_reduced(numerator(l@), denominator(l@));
    }
    let (top, bottom): (IntLiteral, IntLiteral) = match (n.floor_div(&g), d.floor_div(&g)) {
        (Some(a), Some(b)) => (a, b),
        _ => (n.copy(), d.copy()),
    };
    let top: Vec<u8> = bytes_of_int(&top);
    let bottom: Vec<u8> = bytes_of_int(&bottom);
    let mut word: Vec<u8> = Vec::new();
    word.push(110);
    word.push(117);
    word.push(109);
    word.push(101);
    word.push(114);
    word.push(105);
    word.push(99);
    assert(word@ =~= seq![110u8, 117u8, 109u8, 101u8, 114u8, 105u8, 99u8]);
    let h: u64 = mix(0xcbf2_9ce4_8422_2325, &word);
    let h: u64 = mix(mix(h, &bytes_of_word(top.len() as u64)), &top);
    mix(mix(h, &bytes_of_word(bottom.len() as u64)), &bottom)
}

/// The hash of a builtin value.
pub fn builtin_hash(v: &Value) -> (r: Result<u64, Stop>)
    ensures
        bits_view(r) == hash_outcome(v@),
{
    proof {
        reveal(hash_outcome);
    }
    if let Some(l) = as_finite_numeric(v) {
        return Ok(hash_fraction(&l));
    }
    match v {
        Value::Bool(b) => {
            let mut one: Vec<u8> = Vec::new();
            one.push(if *b { 1 } else { 0 });
            assert(one@ =~= seq![if *b { 1u8 } else { 0u8 }]);
            Ok(mix(0xcbf2_9ce4_8422_2325, &one))
        },
        Value::Float64(bits) => Ok(mix(0xcbf2_9ce4_8422_2325, &bytes_of_word(*bits))),
        Value::Str(s) => Ok(mix(0xcbf2_9ce4_8422_2325, &s.as_str().as_bytes_vec())),
        _ => Err(fail_type(cat2("cannot hash ", &kind_name(v)))),
    }
}

/// Finite numbers that are equal have equal hashes, whatever their kinds.
pub proof fn law_hash_follows_equality(a: ValueModel, b: ValueModel)
    requires
        exact_parts(a) is Some,
        exact_parts(b) is Some,
        operator_equal(a, b) == Ok::<bool, StopModel>(true),
    ensures
        hash_outcome(a) == hash_outcome(b),
{
    reveal(hash_outcome);
    let (x, y) = (exact_parts(a)->Some_0, exact_parts(b)->Some_0);
    lemma_exact_parts(a);
    lemma_exact_parts(b);
    law_equal_numbers_hash_equal(x.0, x.1, y.0, y.1);
}

proof fn lemma_exact_parts(v: ValueModel)
    requires
        exact_parts(v) is Some,
    ensures
        exact_parts(v)->Some_0.1 > 0,
{
    if let ValueModel::Float64(bits) = v {
        let scale = float_scale(bits);
        if scale < 0 {
            lemma_pow_positive(2, (-scale) as nat);
        }
    }
}

} // verus!
