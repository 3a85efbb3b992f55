use mojito::ast::{Dtype, InfixOp, PrefixOp};
use mojito::literal::{FloatLiteral, IntLiteral};
use mojito::runtime::builtins::{
    builtin_abs, builtin_ceildiv, builtin_convert, builtin_divmod, builtin_min_max, builtin_round, normalize_slice_bounds,
    slice_indices, slice_value, trim_ending,
};
use mojito::runtime::hash::builtin_hash;
use mojito::runtime::lanes::{bounds_check, simd_from_values, simd_reduce, simd_shuffle, Reduction};
use mojito::runtime::materialize::{coerce_checked, materialize_literal};
use mojito::runtime::operators::{apply_infix, apply_prefix, compare_tuples, eval_membership};
use mojito::runtime::scalar::{floor_div, floor_mod, int_op, uint_op};
use mojito::runtime::simd::{simd_binop, wrap};
use mojito::runtime::values::{values_equal, TextPart};
use mojito::runtime::{kind_name, FloatOp, FloatTable, FloatTask, Rounding, RuntimeError, SimdLanes, Stop, Value};
use mojito::order::Order;
use mojito::types::Ty;

fn exact(numerator: i64, denominator: i64) -> FloatLiteral {
    FloatLiteral::fraction(IntLiteral::from_i64(numerator), IntLiteral::from_i64(denominator))
}

fn float(x: f64) -> Value {
    Value::Float64(x.to_bits())
}

fn whole(value: i64) -> Value {
    Value::IntLiteral(IntLiteral::from_i64(value).canonical())
}

fn nearest(l: &FloatLiteral) -> f64 {
    let top = l.numerator.to_i64().unwrap() as f64;
    let bottom = l.denominator.to_i64().unwrap() as f64;
    let quotient = top / bottom;
    if l.negative_zero { -quotient } else { quotient }
}

/// What floating-point hardware answers to a task.
fn answer(task: &FloatTask) -> i128 {
    let x = |bits: &u64| f64::from_bits(*bits);
    let bits = |value: f64| value.to_bits() as i128;
    match task {
        FloatTask::FromInt(n) => bits(*n as f64),
        FloatTask::FromUInt(n) => bits(*n as f64),
        FloatTask::FromWide(n) => bits(*n as f64),
        FloatTask::FromExact(l) => bits(nearest(l)),
        FloatTask::Single(a) => bits(x(a) as f32 as f64),
        FloatTask::SingleExact(l) => bits(nearest(l) as f32 as f64),
        FloatTask::Binary { op, a, b } => bits(match op {
            FloatOp::Add => x(a) + x(b),
            FloatOp::Sub => x(a) - x(b),
            FloatOp::Mul => x(a) * x(b),
            FloatOp::Div => x(a) / x(b),
            FloatOp::Pow => x(a).powf(x(b)),
            FloatOp::Min => x(a).min(x(b)),
            FloatOp::Max => x(a).max(x(b)),
        }),
        FloatTask::Whole { rounding, a } => bits(match rounding {
            Rounding::Floor => x(a).floor(),
            Rounding::Ceil => x(a).ceil(),
            Rounding::Trunc => x(a).trunc(),
            Rounding::Nearest => x(a).round(),
        }),
        FloatTask::ToInt(a) => (x(a) as i64) as i128,
        FloatTask::ToUInt(a) => (x(a) as u64) as i128,
        FloatTask::ToWide(a) => x(a) as i128,
    }
}

/// Runs an operation, answering what it asks for.
fn run<T>(operation: impl Fn(&FloatTable) -> Result<T, Stop>) -> Result<T, RuntimeError> {
    let mut table = FloatTable::new();
    loop {
        match operation(&table) {
            Ok(value) => return Ok(value),
            Err(Stop::Error(error)) => return Err(error),
            Err(Stop::Need(task)) => {
                let result = answer(&task);
                table.put(task, result);
            }
        }
    }
}

fn infix(op: InfixOp, l: &Value, r: &Value) -> Result<Value, RuntimeError> {
    run(|t| apply_infix(t, op, l, r))
}

fn type_error<T>(text: &str) -> Result<T, RuntimeError> {
    Err(RuntimeError::TypeError(text.to_string()))
}

#[test]
fn exact_signed_zero_uses_numeric_equality_abs_and_hashing() {
    let positive = Value::FloatLiteral(exact(0, 1));
    let negative = Value::FloatLiteral(exact(0, 1).neg());

    assert!(values_equal(&positive, &negative).unwrap());
    assert_eq!(builtin_hash(&positive).unwrap(), builtin_hash(&negative).unwrap());
    let Value::FloatLiteral(magnitude) = builtin_abs(&negative).unwrap() else {
        panic!("literal abs changed the value kind");
    };
    assert_eq!(nearest(&magnitude).to_bits(), 0.0f64.to_bits());
}

#[test]
fn finite_numeric_hashes_follow_cross_kind_equality() {
    let values = [
        Value::Int(1),
        Value::UInt(1),
        float(1.0),
        whole(1),
        Value::FloatLiteral(exact(1, 1)),
    ];
    for left in &values {
        for right in &values {
            assert!(values_equal(left, right).unwrap());
            assert_eq!(builtin_hash(left).unwrap(), builtin_hash(right).unwrap());
        }
    }
}

#[test]
fn unreduced_fractions_hash_like_their_reduced_forms() {
    let half = builtin_hash(&float(0.5)).unwrap();
    assert_eq!(builtin_hash(&Value::FloatLiteral(exact(1, 2))).unwrap(), half);
    assert_eq!(builtin_hash(&Value::FloatLiteral(exact(50, 100))).unwrap(), half);
    assert_ne!(builtin_hash(&Value::FloatLiteral(exact(1, 3))).unwrap(), half);
    assert_eq!(
        builtin_hash(&Value::FloatLiteral(exact(-6, 4))).unwrap(),
        builtin_hash(&float(-1.5)).unwrap()
    );
    // The empty text mixes nothing into the offset basis; one byte is one step.
    assert_eq!(builtin_hash(&Value::Str("".into())).unwrap(), 0xcbf2_9ce4_8422_2325);
    assert_eq!(builtin_hash(&Value::Str("a".into())).unwrap(), 0xaf63_dc4c_8601_ec8c);
    assert_eq!(
        builtin_hash(&Value::Bool(true)).unwrap(),
        (0xcbf2_9ce4_8422_2325u64 ^ 1).wrapping_mul(0x100_0000_01b3)
    );
    assert!(builtin_hash(&Value::Tuple(vec![])).is_err());
}

#[test]
fn integer_division_rounds_toward_negative_infinity() {
    assert_eq!((floor_div(7, 2), floor_mod(7, 2)), (3, 1));
    assert_eq!((floor_div(-7, 2), floor_mod(-7, 2)), (-4, 1));
    assert_eq!((floor_div(7, -2), floor_mod(7, -2)), (-4, -1));
    assert_eq!((floor_div(-7, -2), floor_mod(-7, -2)), (3, -1));
}

#[test]
fn integer_operators_wrap_and_reject_zero_divisors() {
    assert_eq!(int_op(InfixOp::Add, i64::MAX, 1).unwrap(), Value::Int(i64::MIN));
    assert_eq!(int_op(InfixOp::Pow, 3, 4).unwrap(), Value::Int(81));
    assert_eq!(int_op(InfixOp::Pow, 2, 64).unwrap(), Value::Int(0));
    assert_eq!(uint_op(InfixOp::Pow, 3, 41).unwrap(), Value::UInt(3u64.wrapping_pow(41)));
    assert_eq!(int_op(InfixOp::Lt, 1, 2).unwrap(), Value::Bool(true));
    assert!(int_op(InfixOp::FloorDiv, 1, 0).is_err());
    assert!(uint_op(InfixOp::Mod, 1, 0).is_err());
}

#[test]
fn mixed_numbers_meet_in_the_wider_kind() {
    assert_eq!(infix(InfixOp::Add, &Value::Int(1), &float(0.5)).unwrap(), float(1.5));
    assert_eq!(infix(InfixOp::Div, &Value::Int(1), &Value::Int(4)).unwrap(), float(0.25));
    assert_eq!(infix(InfixOp::Mul, &whole(6), &whole(7)).unwrap(), whole(42));
    assert_eq!(infix(InfixOp::Add, &whole(2), &Value::Int(3)).unwrap(), Value::Int(5));
    assert_eq!(infix(InfixOp::Le, &float(0.5), &float(0.5)).unwrap(), Value::Bool(true));
    assert_eq!(
        infix(InfixOp::Add, &Value::Str("ab".into()), &Value::Str("c".into())).unwrap(),
        Value::Str("abc".into())
    );
}

#[test]
fn an_operation_asks_for_the_float_results_it_needs() {
    let table = FloatTable::new();
    let stop = apply_infix(&table, InfixOp::Add, &float(1.0), &float(2.0)).unwrap_err();
    let Stop::Need(task) = stop else {
        panic!("a sum of floats needs a float result");
    };
    assert_eq!(
        task,
        FloatTask::Binary { op: FloatOp::Add, a: 1.0f64.to_bits(), b: 2.0f64.to_bits() }
    );
    let mut table = FloatTable::new();
    table.put(task.copy(), 3.0f64.to_bits() as i128);
    assert_eq!(table.get(&task), Some(3.0f64.to_bits() as i128));
    assert_eq!(apply_infix(&table, InfixOp::Add, &float(1.0), &float(2.0)).unwrap(), float(3.0));
}

#[test]
fn prefix_operators() {
    assert_eq!(apply_prefix(PrefixOp::Neg, &Value::Int(3)).unwrap(), Value::Int(-3));
    let Value::Float64(negated) = apply_prefix(PrefixOp::Neg, &float(0.0)).unwrap() else {
        panic!("negation changed the value kind");
    };
    assert_eq!(negated, (-0.0f64).to_bits());
    assert_eq!(apply_prefix(PrefixOp::Not, &Value::Bool(true)).unwrap(), Value::Bool(false));
    assert!(apply_prefix(PrefixOp::Not, &Value::Int(1)).is_err());
}

#[test]
fn comparisons_of_not_a_number_hold_only_for_inequality() {
    let nan = float(f64::NAN);
    assert_eq!(infix(InfixOp::Eq, &nan, &nan).unwrap(), Value::Bool(false));
    assert_eq!(infix(InfixOp::Ne, &nan, &nan).unwrap(), Value::Bool(true));
    assert_eq!(infix(InfixOp::Lt, &nan, &float(1.0)).unwrap(), Value::Bool(false));
}

#[test]
fn tuples_compare_element_by_element() {
    let table = FloatTable::new();
    let pair = |a: i64, b: i64| vec![Value::Int(a), Value::Int(b)];
    assert_eq!(compare_tuples(&table, &pair(1, 2), &pair(1, 3)).unwrap(), Order::Less);
    assert_eq!(compare_tuples(&table, &pair(2, 0), &pair(1, 3)).unwrap(), Order::Greater);
    assert_eq!(compare_tuples(&table, &pair(1, 2), &pair(1, 2)).unwrap(), Order::Same);
}

#[test]
fn membership_in_texts() {
    let text = Value::Str("mojito".into());
    let part = Value::Str("jit".into());
    assert_eq!(
        run(|t| eval_membership(t, InfixOp::In, &part, &text)).unwrap(),
        Value::Bool(true)
    );
    assert_eq!(
        run(|t| eval_membership(t, InfixOp::NotIn, &part, &text)).unwrap(),
        Value::Bool(false)
    );
}

#[test]
fn lanes_wrap_to_their_width() {
    assert_eq!(wrap(Dtype::Int8, 200), -56);
    assert_eq!(wrap(Dtype::UInt8, 300), 44);
    assert_eq!(wrap(Dtype::UInt8, -1), 255);
    assert_eq!(wrap(Dtype::Int, 1 << 63), -(1 << 63));
    assert_eq!(wrap(Dtype::Int8, wrap(Dtype::Int8, 200)), wrap(Dtype::Int8, 200));
}

#[test]
fn vectors_compute_lane_by_lane() {
    let values = vec![Value::Int(100), Value::Int(27)];
    let vector = run(|t| simd_from_values(t, Dtype::Int8, 2, &values)).unwrap();
    let sum = run(|t| simd_binop(t, InfixOp::Add, &vector, &vector)).unwrap();
    assert_eq!(sum, Value::Simd { dtype: Dtype::Int8, lanes: SimdLanes::Int(vec![-56, 54]) });
    assert_eq!(
        simd_shuffle(&vector, &vec![1, 0]).unwrap(),
        Value::Simd { dtype: Dtype::Int8, lanes: SimdLanes::Int(vec![27, 100]) }
    );
    let lanes = SimdLanes::Int(vec![3, 4]);
    let scalar = run(|t| simd_reduce(t, Dtype::Int32, &lanes, Reduction::Mul)).unwrap();
    assert_eq!(scalar, Value::Simd { dtype: Dtype::Int32, lanes: SimdLanes::Int(vec![12]) });
}

#[test]
fn indices_are_checked() {
    assert_eq!(bounds_check(1, 2, "list").unwrap(), 1);
    assert!(bounds_check(2, 2, "list").is_err());
}

#[test]
fn slices_follow_their_bounds() {
    assert_eq!(normalize_slice_bounds(5, None, None, None).unwrap(), (0, 5, 1));
    assert_eq!(slice_indices(5, None, None, Some(-2)).unwrap(), vec![4, 2, 0]);
    assert_eq!(slice_indices(5, Some(-2), None, None).unwrap(), vec![3, 4]);
    assert!(slice_indices(5, None, None, Some(0)).is_err());
    let text = Value::Str("mojito".into());
    assert_eq!(slice_value(&text, Some(2), Some(4), None).unwrap(), Value::Str("ji".into()));
    assert_eq!(slice_value(&text, None, None, None).unwrap(), text);
    // Half of a two-byte character is no character.
    assert_eq!(
        slice_value(&Value::Str("é".into()), Some(0), Some(1), None).unwrap(),
        Value::Str("\u{fffd}".into())
    );
}

#[test]
fn numeric_builtins() {
    assert_eq!(run(|t| builtin_min_max(t, true, &Value::Int(2), &Value::Int(1))).unwrap(), Value::Int(1));
    assert_eq!(run(|t| builtin_min_max(t, false, &float(2.0), &float(1.0))).unwrap(), float(2.0));
    assert_eq!(run(|t| builtin_ceildiv(t, &Value::Int(7), &Value::Int(2))).unwrap(), Value::Int(4));
    assert_eq!(
        run(|t| builtin_divmod(t, &Value::Int(-7), &Value::Int(2))).unwrap(),
        Value::Tuple(vec![Value::Int(-4), Value::Int(1)])
    );
    assert_eq!(run(|t| builtin_round(t, &Value::Int(7))).unwrap(), float(7.0));
    assert_eq!(run(|t| builtin_round(t, &float(2.5))).unwrap(), float(3.0));
    assert_eq!(builtin_abs(&Value::Int(-7)).unwrap(), Value::Int(7));
    assert_eq!(run(|t| builtin_convert(t, "Int", &float(-2.5))).unwrap(), Value::Int(-2));
    assert_eq!(run(|t| builtin_convert(t, "Float64", &Value::Int(2))).unwrap(), float(2.0));
}

#[test]
fn literals_take_the_checked_type() {
    assert_eq!(run(|t| materialize_literal(t, &whole(7), &Ty::Int)).unwrap(), Value::Int(7));
    assert_eq!(run(|t| materialize_literal(t, &whole(7), &Ty::Float64)).unwrap(), float(7.0));
    assert_eq!(
        run(|t| materialize_literal(t, &Value::FloatLiteral(exact(1, 4)), &Ty::Float64)).unwrap(),
        float(0.25)
    );
    let byte = Ty::Simd { dtype: Dtype::UInt8, width: 1 };
    assert_eq!(
        run(|t| materialize_literal(t, &whole(255), &byte)).unwrap(),
        Value::Simd { dtype: Dtype::UInt8, lanes: SimdLanes::Int(vec![255]) }
    );
    assert_eq!(
        run(|t| materialize_literal(t, &whole(7), &Ty::Bool)),
        type_error("cannot materialize IntLiteral as Bool")
    );
}

#[test]
fn literals_beyond_a_type_are_refused() {
    let mut table = FloatTable::new();
    table.put(FloatTask::FromExact(FloatLiteral::from_int(&IntLiteral::from_i64(7)).canonical()), -1);
    let stop = materialize_literal(&table, &whole(7), &Ty::Float64).unwrap_err();
    assert!(matches!(
        stop,
        Stop::Error(RuntimeError::TypeError(text))
            if text == "literal value 7 cannot be represented as Float64"
    ));
    // Integer lanes wrap; truth lanes take no integer.
    let lane = |dtype: Dtype| Ty::Simd { dtype, width: 1 };
    assert_eq!(
        run(|t| materialize_literal(t, &whole(300), &lane(Dtype::UInt8))).unwrap(),
        Value::Simd { dtype: Dtype::UInt8, lanes: SimdLanes::Int(vec![44]) }
    );
    assert_eq!(
        run(|t| materialize_literal(t, &whole(300), &lane(Dtype::Bool))),
        type_error("literal value 300 cannot be represented as Bool")
    );
}

#[test]
fn boundaries_coerce_inside_packs() {
    let pack = Value::Tuple(vec![whole(1), Value::Int(2), Value::Bool(true)]);
    let ty = Ty::Tuple(vec![Ty::Int, Ty::Float64, Ty::Bool]);
    assert_eq!(
        run(|t| coerce_checked(t, &pack, &ty)).unwrap(),
        Value::Tuple(vec![Value::Int(1), float(2.0), Value::Bool(true)])
    );
    let list = Value::ComptimeList(vec![whole(1), whole(2)]);
    assert_eq!(
        run(|t| coerce_checked(t, &list, &Ty::ComptimeList(Box::new(Ty::UInt)))).unwrap(),
        Value::ComptimeList(vec![Value::UInt(1), Value::UInt(2)])
    );
    let variant = Value::Variant {
        alternatives: vec![Ty::Bool, Ty::Float64],
        index: 1,
        value: Box::new(Value::Int(3)),
    };
    assert_eq!(
        run(|t| coerce_checked(t, &variant, &Ty::Variant(vec![Ty::Bool, Ty::Float64]))).unwrap(),
        Value::Variant {
            alternatives: vec![Ty::Bool, Ty::Float64],
            index: 1,
            value: Box::new(float(3.0)),
        }
    );
}

#[test]
fn line_endings_are_trimmed() {
    assert_eq!(trim_ending("text\r\n"), "text");
    assert_eq!(trim_ending("text\n"), "text");
    assert_eq!(trim_ending("text"), "text");
}

#[test]
fn texts_and_kinds_of_values() {
    assert_eq!(kind_name(&Value::Int(1)), "Int");
    assert_eq!(kind_name(&whole(1)), "IntLiteral");
    let parts = Value::Int(-12).parts();
    assert_eq!(parts.len(), 1);
    assert!(matches!(&parts[0], TextPart::Plain(text) if text == "-12"));
    let parts = Value::Error("say \"no\"".into()).parts();
    assert!(matches!(&parts[0], TextPart::Plain(text) if text == "Error(\"say \\\"no\\\"\")"));
    let parts = float(0.5).parts();
    assert!(parts.iter().any(|part| matches!(part, TextPart::Float(bits) if *bits == 0.5f64.to_bits())));
}

#[test]
fn equality_of_values_is_of_numbers_not_of_bits() {
    assert_eq!(float(0.0), float(-0.0));
    assert_ne!(float(f64::NAN), float(f64::NAN));
    let function = || Value::Function("f".into());
    assert_ne!(function(), function());
    let closure = || Value::Closure { function: "f".into(), captures: vec![] };
    assert_ne!(closure(), closure());
    assert_eq!(SimdLanes::Float(vec![0.0f64.to_bits()]), SimdLanes::Float(vec![(-0.0f64).to_bits()]));
    assert_ne!(Value::Moved, Value::Moved);
    assert_eq!(Value::Tuple(vec![Value::Int(1)]), Value::Tuple(vec![Value::Int(1)]));
    assert_ne!(Value::Int(1), Value::UInt(1));
}
