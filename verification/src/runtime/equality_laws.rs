//! What equality and hashing promise.

use crate::literal::{int_pow, lemma_pow_positive};
use crate::runtime::{
    StopModel, ValueModel, float_digits, float_finite, float_magnitude, float_nan, float_parts,
    float_rank, float_scale,
};
use crate::runtime::hash::{hash_outcome, mixed, signed_bytes, word_bytes};
use crate::runtime::operators::float_negated;
use crate::runtime::values::{
    all_operator_equal, exact_parts, is_exact, is_num, operator_equal, value_eq,
};
use vstd::prelude::*;

verus! {

/// Numbers are equal where their values are, whatever their kinds; texts, truth values
/// and the absent value where they are the same, and values of different kinds that are
/// no numbers do not compare.
pub proof fn law_operator_equality(a: ValueModel, b: ValueModel)
    ensures
        exact_parts(a) is Some && exact_parts(b) is Some ==> operator_equal(a, b) == Ok::<bool, StopModel>(
            exact_parts(a)->Some_0.0 * exact_parts(b)->Some_0.1 == exact_parts(b)->Some_0.0 * exact_parts(a)->Some_0.1,
        ),
        a is Int && b is Int ==> operator_equal(a, b) == Ok::<bool, StopModel>(a->Int_0 == b->Int_0),
        a is UInt && b is UInt ==> operator_equal(a, b) == Ok::<bool, StopModel>(a->UInt_0 == b->UInt_0),
        a is Int && b is UInt ==> operator_equal(a, b) == Ok::<bool, StopModel>(a->Int_0 == b->UInt_0),
        a is Str && b is Str ==> operator_equal(a, b) == Ok::<bool, StopModel>(a == b),
        a is Bool && b is Bool ==> operator_equal(a, b) == Ok::<bool, StopModel>(a == b),
        a is NoneValue && b is NoneValue ==> operator_equal(a, b) == Ok::<bool, StopModel>(true),
        a is Str && (b is Int || b is Bool || b is NoneValue) ==> operator_equal(a, b) is Err
            && operator_equal(b, a) is Err,
        a is Tuple && b is Tuple && a->Tuple_0.len() != b->Tuple_0.len()
            ==> operator_equal(a, b) == Ok::<bool, StopModel>(
            false,
        ),
        a is Float64 && float_nan(a->Float64_0) && (is_num(b) || is_exact(b)) ==> operator_equal(a, b) == Ok::<
            bool,
            StopModel,
        >(false),
        a is Float64 && b is Float64 && !float_finite(a->Float64_0) && !float_nan(a->Float64_0) ==> operator_equal(a, b)
            == Ok::<bool, StopModel>(float_rank(a->Float64_0) == float_rank(b->Float64_0) && !float_nan(b->Float64_0)),
{
    if exact_parts(a) is Some && exact_parts(b) is Some {
        let (x, y) = (exact_parts(a)->Some_0, exact_parts(b)->Some_0);
        assert(x.0 * 1 == x.0 && y.0 * 1 == y.0);
    }
    if a is Tuple && b is Tuple {
        assert(operator_equal(a, b) == Ok::<bool, StopModel>(all_operator_equal(a->Tuple_0, b->Tuple_0)));
    }
}

/// Raising the exponent of a normal number by one doubles it.
pub proof fn law_exponent_doubles(bits: u64)
    requires
        0x10_0000_0000_0000 <= float_magnitude(bits) < 0x7fe0_0000_0000_0000,
    ensures
        ({
            let more = (bits + 0x10_0000_0000_0000) as u64;
            let (n, d) = float_parts(bits);
            let (m, e) = float_parts(more);
            d > 0 && e > 0 && m * d == 2 * n * e
        }),
{
    let more = (bits + 0x10_0000_0000_0000) as u64;
    assert(bits + 0x10_0000_0000_0000 <= u64::MAX);
    assert(float_magnitude(more) == float_magnitude(bits) + 0x10_0000_0000_0000);
    assert(float_digits(more) == float_digits(bits));
    assert(float_scale(more) == float_scale(bits) + 1);
    assert((more >= 0x8000_0000_0000_0000) == (bits >= 0x8000_0000_0000_0000));
    let s = float_scale(bits);
    let g = if bits >= 0x8000_0000_0000_0000 { -float_digits(bits) } else { float_digits(bits) };
    if s >= 0 {
        let p = int_pow(2, s as nat);
        assert(int_pow(2, (s + 1) as nat) == 2 * p);
        assert(float_parts(bits) == (g * p, 1int));
        assert(float_parts(more) == (g * (2 * p), 1int));
        assert((g * (2 * p)) * 1 == 2 * (g * p) * 1) by (nonlinear_arith);
    } else {
        let p = int_pow(2, (-s) as nat);
        lemma_pow_positive(2, (-s) as nat);
        assert(p == 2 * int_pow(2, (-s - 1) as nat));
        lemma_pow_positive(2, (-s - 1) as nat);
        let q = int_pow(2, (-s - 1) as nat);
        assert(g * p == 2 * g * q) by (nonlinear_arith)
            requires
                p == 2 * q,
        ;
        assert(float_parts(bits) == (g, p));
        if s == -1 {
            assert(int_pow(2, 0) == 1);
            assert(q == 1);
            assert(float_parts(more) == (g * 1, 1int));
            assert(g * 1 == g);
        } else {
            assert(float_parts(more) == (g, q));
        }
    }
}

/// Mixing bytes goes byte by byte, in order, each one combined with the hash so far and
/// spread by the multiplier of the 64-bit Fowler-Noll-Vo hash.
pub proof fn law_mixing(h: u64, a: Seq<u8>, b: Seq<u8>, x: u8)
    ensures
        mixed(h, a + b) == mixed(mixed(h, a), b),
        mixed(h, a.push(x)) as int == ((mixed(h, a) ^ (x as u64)) as int * 0x100_0000_01b3) % 0x1_0000_0000_0000_0000,
        mixed(h, Seq::empty()) == h,
    decreases b.len(),
{
    assert(a.push(x).drop_last() =~= a);
    if b.len() > 0 {
        law_mixing(h, a, b.drop_last(), x);
        assert((a + b).drop_last() =~= a + b.drop_last());
        assert((a + b).last() == b.last());
    } else {
        assert(a + b =~= a);
    }
}

/// The hash of a text is that of its bytes, from the offset basis of the same hash; a
/// truth value hashes as the byte one or zero.
pub proof fn law_hashes(s: Seq<char>, b: bool)
    ensures
        hash_outcome(ValueModel::Str(s)) == Ok::<u64, StopModel>(
            mixed(0xcbf2_9ce4_8422_2325, vstd::utf8::encode_utf8(s)),
        ),
        hash_outcome(ValueModel::Bool(b)) == Ok::<u64, StopModel>(
            mixed(0xcbf2_9ce4_8422_2325, seq![if b { 1u8 } else { 0u8 }]),
        ),
        hash_outcome(ValueModel::NoneValue) is Err,
        hash_outcome(ValueModel::Int(1)) is Ok,
{
    reveal(hash_outcome);
}

/// The bytes of a word spell it, the least significant first.
pub proof fn law_word_bytes(n: u64, k: nat)
    ensures
        word_bytes(n, k).len() == k,
        k > 0 ==> word_bytes(n, k)[0] == n % 256,
        k > 0 ==> word_bytes(n, k).skip(1) == word_bytes((n / 256) as u64, (k - 1) as nat),
    decreases k,
{
    if k > 0 {
        law_word_bytes((n / 256) as u64, (k - 1) as nat);
        assert(word_bytes(n, k).skip(1) =~= word_bytes((n / 256) as u64, (k - 1) as nat));
    }
}

/// The sign bit negates a number, and the bits of one are one.
pub proof fn law_float_value(bits: u64)
    ensures
        ({
            let (n, d) = float_parts(bits);
            let (m, e) = float_parts(float_negated(bits));
            m == -n && e == d
        }),
        float_parts(0x3ff0_0000_0000_0000).0 == float_parts(0x3ff0_0000_0000_0000).1,
        float_parts(0).0 == 0,
{
    let other = float_negated(bits);
    assert(float_magnitude(other) == float_magnitude(bits));
    let g = float_digits(bits);
    let s = float_scale(bits);
    if s >= 0 {
        let p = int_pow(2, s as nat);
        assert((-g) * p == -(g * p)) by (nonlinear_arith);
    }
    assert(float_magnitude(0x3ff0_0000_0000_0000) == 0x3ff0_0000_0000_0000);
    assert(0x3ff0_0000_0000_0000int / 0x10_0000_0000_0000 == 1023);
    assert(float_scale(0x3ff0_0000_0000_0000) == -52);
    assert(float_digits(0x3ff0_0000_0000_0000) == 0x10_0000_0000_0000);
    lemma_pow_52();
}

proof fn lemma_pow_52()
    ensures
        int_pow(2, 52) == 0x10_0000_0000_0000,
{
    reveal_with_fuel(int_pow, 53);
}

/// Numbers, truth values and texts are the same value exactly where they are alike in
/// kind and content.
pub proof fn law_same_values(a: ValueModel, b: ValueModel)
    requires
        a is Int || a is UInt || a is Bool || a is Str || a is NoneValue,
        b is Int || b is UInt || b is Bool || b is Str || b is NoneValue,
    ensures
        value_eq(a, b) <==> a == b,
{
}

/// The number that bytes spell in two's complement, the least significant first.
pub open spec fn signed_value(bytes: Seq<u8>) -> int
    decreases bytes.len(),
{
    if bytes.len() <= 1 {
        if bytes.len() == 0 {
            0
        } else if bytes[0] < 128 {
            bytes[0] as int
        } else {
            bytes[0] - 256
        }
    } else {
        bytes[0] + 256 * signed_value(bytes.skip(1))
    }
}

/// The bytes of an integer spell it.
pub proof fn law_signed_bytes(n: int)
    ensures
        signed_value(signed_bytes(n)) == n,
        signed_bytes(n).len() >= 1,
    decreases (if n < 0 { -n } else { n }),
{
    let low = n % 256;
    let rest = n / 256;
    if (rest == 0 && low < 128) || (rest == -1 && low >= 128) || n == 0 || n == -1 {
        assert(signed_bytes(n)[0] == low);
    } else {
        law_signed_bytes(rest);
        assert(signed_bytes(n) == seq![low as u8] + signed_bytes(rest));
        assert(signed_bytes(n).skip(1) =~= signed_bytes(rest));
        assert(signed_bytes(n)[0] == low);
    }
}

} // verus!
