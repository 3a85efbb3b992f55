use mojito::literal::{FloatLiteral, IntLiteral};
use mojito::order::Order;

fn integer(value: i64) -> IntLiteral {
    IntLiteral::from_i64(value)
}

fn fraction(numerator: i64, denominator: i64) -> FloatLiteral {
    FloatLiteral::fraction(integer(numerator), integer(denominator))
}

#[test]
fn integers_are_exact_past_the_machine() {
    let big = integer(i64::MAX).mul(&integer(i64::MAX));
    assert_eq!(big.text(), "85070591730234615847396907784232501249");
    assert_eq!(big.to_i64(), None);
    assert_eq!(big.sub(&big).to_i64(), Some(0));
    assert_eq!(integer(2).raised(100).text(), "1267650600228229401496703205376");
    assert_eq!(integer(i64::MIN).neg().text(), "9223372036854775808");
    assert_eq!(integer(i64::MIN).neg().to_u64(), Some(1 << 63));
}

#[test]
fn division_rounds_toward_negative_infinity() {
    for (x, y, q, r) in [(7, 2, 3, 1), (-7, 2, -4, 1), (7, -2, -4, -1), (-7, -2, 3, -1)] {
        assert_eq!(integer(x).floor_div(&integer(y)).unwrap().to_i64(), Some(q));
        assert_eq!(integer(x).floor_mod(&integer(y)).unwrap().to_i64(), Some(r));
    }
    assert!(integer(1).floor_div(&integer(0)).is_none());
    assert!(integer(1).floor_mod(&integer(0)).is_none());
}

#[test]
fn bits_follow_two_s_complement() {
    assert_eq!(integer(-1).bitand(&integer(0xff)).to_i64(), Some(255));
    assert_eq!(integer(-2).bitor(&integer(1)).to_i64(), Some(-1));
    assert_eq!(integer(5).bitxor(&integer(3)).to_i64(), Some(6));
    assert_eq!(integer(1).shl(&integer(70)).unwrap().text(), "1180591620717411303424");
    assert_eq!(integer(-5).shr(&integer(1)).unwrap().to_i64(), Some(-3));
    assert!(integer(1).shl(&integer(-1)).is_none());
    assert_eq!(integer(300).wrapping_unsigned(8), 44);
    assert_eq!(integer(200).wrapping_signed(8), -56);
    assert_eq!(integer(-1).wrapping_unsigned(64), u64::MAX);
}

#[test]
fn canonical_literals_are_unique() {
    let padded = IntLiteral { negative: true, limbs: vec![5, 0, 0] };
    assert_eq!(padded.canonical(), integer(-5).canonical());
    let zero = IntLiteral { negative: true, limbs: vec![0] };
    assert_eq!(zero.canonical(), integer(0).canonical());
    assert_eq!(zero.text(), "0");
}

#[test]
fn fractions_compare_by_value() {
    assert_eq!(fraction(1, 2).numeric_order(&fraction(2, 4)), Order::Same);
    assert_eq!(fraction(1, 3).numeric_order(&fraction(1, 2)), Order::Less);
    assert_eq!(fraction(-1, 3).numeric_order(&fraction(-1, 2)), Order::Greater);
    assert_eq!(fraction(1, 2).add(&fraction(1, 3)).numeric_order(&fraction(5, 6)), Order::Same);
    assert_eq!(fraction(1, 2).div(&fraction(1, 4)).unwrap().to_int_if_whole().unwrap().to_i64(), Some(2));
    assert!(fraction(1, 2).div(&fraction(0, 1)).is_none());
    assert_eq!(fraction(-7, 2).floor_div(&fraction(1, 1)).unwrap().numeric_order(&fraction(-4, 1)), Order::Same);
    assert_eq!(fraction(-7, 2).trunc_to_int().to_i64(), Some(-3));
    assert!(fraction(7, 2).to_int_if_whole().is_none());
    assert_eq!(fraction(2, 3).pow_int(&integer(2)).unwrap().numeric_order(&fraction(4, 9)), Order::Same);
    assert_eq!(fraction(2, 3).pow_int(&integer(-1)).unwrap().numeric_order(&fraction(3, 2)), Order::Same);
}
