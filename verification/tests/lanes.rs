use mojito::ast::{Dtype, InfixOp, Type};
use mojito::literal::IntLiteral;
use mojito::runtime::builtins::{builtin_ceildiv, builtin_error, builtin_round_dir, prompt_of, value_as_index};
use mojito::runtime::lanes::{read_simd_lane, set_simd_lane, simd_cast, simd_method, simd_select};
use mojito::runtime::operators::{coerce, coerce_like};
use mojito::runtime::simd::simd_binop;
use mojito::runtime::{FloatTable, FloatTask, Rounding, RuntimeError, SimdLanes, Stop, Value};

fn ints(dtype: Dtype, lanes: Vec<i128>) -> Value {
    Value::Simd { dtype, lanes: SimdLanes::Int(lanes) }
}

fn float(x: f64) -> Value {
    Value::Float64(x.to_bits())
}

fn error(stop: Stop) -> RuntimeError {
    match stop {
        Stop::Error(error) => error,
        Stop::Need(task) => panic!("needs {task:?}"),
    }
}

#[test]
fn lanes_are_read_and_set() {
    let lanes = SimdLanes::Int(vec![5, 6]);
    let table = FloatTable::new();
    assert_eq!(read_simd_lane(Dtype::Int8, &lanes, 1).unwrap(), ints(Dtype::Int8, vec![6]));
    // A one-lane vector of the native types is that scalar.
    assert_eq!(read_simd_lane(Dtype::Int, &lanes, 0).unwrap(), Value::Int(5));
    assert!(read_simd_lane(Dtype::Int8, &lanes, 2).is_err());
    assert!(read_simd_lane(Dtype::Int8, &lanes, -1).is_err());
    assert_eq!(
        set_simd_lane(&table, Dtype::Int8, &lanes, 0, &Value::Int(300)).unwrap(),
        SimdLanes::Int(vec![44, 6])
    );
}

#[test]
fn casts_wrap() {
    let table = FloatTable::new();
    let vector = ints(Dtype::Int8, vec![-1, 7]);
    assert_eq!(simd_cast(&table, Dtype::UInt8, &vector).unwrap(), ints(Dtype::UInt8, vec![255, 7]));
    assert_eq!(
        error(simd_cast(&table, Dtype::Int8, &Value::Str("x".into())).unwrap_err()),
        RuntimeError::TypeError("cannot cast String as a SIMD value".into())
    );
}

#[test]
fn masks_select_and_reduce() {
    let table = FloatTable::new();
    let mask = SimdLanes::Bool(vec![true, false]);
    let (a, b) = (ints(Dtype::Int8, vec![1, 2]), ints(Dtype::Int8, vec![3, 4]));
    assert_eq!(simd_select(&table, &mask, &a, &b).unwrap(), ints(Dtype::Int8, vec![1, 4]));
    assert_eq!(
        simd_method(&table, Dtype::Bool, &mask, "select", &vec![a.clone(), b.clone()]).unwrap(),
        ints(Dtype::Int8, vec![1, 4])
    );
    assert_eq!(
        simd_method(&table, Dtype::Bool, &mask, "reduce_or", &vec![]).unwrap(),
        Value::Bool(true)
    );
    assert_eq!(
        simd_method(&table, Dtype::Bool, &mask, "reduce_and", &vec![]).unwrap(),
        Value::Bool(false)
    );
    let lanes = SimdLanes::Int(vec![100, 100]);
    assert_eq!(
        simd_method(&table, Dtype::Int8, &lanes, "reduce_add", &vec![]).unwrap(),
        ints(Dtype::Int8, vec![-56])
    );
    assert_eq!(
        error(simd_method(&table, Dtype::Int8, &lanes, "spin", &vec![]).unwrap_err()),
        RuntimeError::Unsupported("vm: SIMD[DType.int8, 2] has no method 'spin'".into())
    );
    assert_eq!(
        error(simd_select(&table, &lanes, &a, &b).unwrap_err()),
        RuntimeError::TypeError("select() requires a bool-mask receiver".into())
    );
}

#[test]
fn comparisons_give_masks() {
    let table = FloatTable::new();
    let (a, b) = (ints(Dtype::Int8, vec![1, 5]), ints(Dtype::Int8, vec![3, 4]));
    assert_eq!(
        simd_binop(&table, InfixOp::Lt, &a, &b).unwrap(),
        Value::Simd { dtype: Dtype::Bool, lanes: SimdLanes::Bool(vec![true, false]) }
    );
}

#[test]
fn rounding_keeps_integers() {
    let mut table = FloatTable::new();
    assert_eq!(builtin_round_dir(&table, "__floor__", &Value::Int(-3)).unwrap(), Value::Int(-3));
    table.put(
        FloatTask::Whole { rounding: Rounding::Floor, a: (-2.5f64).to_bits() },
        (-3.0f64).to_bits() as i128,
    );
    assert_eq!(builtin_round_dir(&table, "__floor__", &float(-2.5)).unwrap(), float(-3.0));
    assert_eq!(
        error(builtin_round_dir(&table, "__ceil__", &Value::Bool(true)).unwrap_err()),
        RuntimeError::TypeError("__ceil__() expects a numeric value, got Bool".into())
    );
    // Integer ceiling division rounds toward positive infinity.
    assert_eq!(builtin_ceildiv(&table, &Value::Int(-7), &Value::Int(2)).unwrap(), Value::Int(-3));
}

#[test]
fn indices_prompts_and_errors() {
    assert_eq!(value_as_index(&Value::Int(3)).unwrap(), 3);
    assert_eq!(value_as_index(&Value::IntLiteral(IntLiteral::from_i64(3))).unwrap(), 3);
    assert_eq!(
        error(value_as_index(&Value::Bool(true)).unwrap_err()),
        RuntimeError::TypeError("index must be Int, got Bool".into())
    );
    assert_eq!(builtin_error(&Value::Str("boom".into())).unwrap(), Value::Error("boom".into()));
    assert_eq!(
        error(builtin_error(&Value::Int(1)).unwrap_err()),
        RuntimeError::TypeError("Error() expects a String, got Int".into())
    );
    assert_eq!(prompt_of(&Value::Str("> ".into())).unwrap(), "> ");
    assert_eq!(
        error(prompt_of(&Value::Int(1)).unwrap_err()),
        RuntimeError::TypeError("input() expects a String prompt, got Int".into())
    );
}

#[test]
fn bindings_coerce_literals() {
    let table = FloatTable::new();
    assert_eq!(coerce(&table, &Value::Int(-1), &Type::UInt).unwrap(), Value::UInt(u64::MAX));
    assert_eq!(
        coerce(&table, &Value::Str("x".into()), &Type::UInt).unwrap(),
        Value::Str("x".into())
    );
    let mut table = FloatTable::new();
    table.put(FloatTask::FromInt(2), 2.0f64.to_bits() as i128);
    assert_eq!(coerce(&table, &Value::Int(2), &Type::Float64).unwrap(), float(2.0));
    assert_eq!(coerce_like(&table, &Value::Int(2), &float(0.0)).unwrap(), float(2.0));
}
